//! A flush, one step at a time.
//!
//! A flush reads the manifest that is there, writes the manifest of the
//! pod, makes sure that the directory of the blobs exists, lists the
//! blobs, removes those that belong to no item and writes the blobs of the
//! items that are new or have changed. The flusher says which step is next
//! and takes in how the step went; the caller touches the directory.

use crate::storage_disk::flushed;
use crate::storage_disk::remove_all;
use crate::storage_disk::write_all;
use crate::storage_disk::Blobs;
use crate::storage_disk::Disk;
use crate::storage_disk::PodView;
use crate::storage_error::StorageError;
use crate::storage_flush::info_of;
use crate::storage_flush::is_due;
use crate::storage_flush::is_orphan;
use crate::storage_flush::item_of;
use crate::storage_flush::item_seq;
use crate::storage_flush::persisted_view;
use crate::storage_flush::items_to_persist;
use crate::storage_flush::orphan_blobs;
use crate::storage_flush::storage_info;
use crate::storage_flush::FlushPlan;
use crate::storage_flush::FlushStep;
use crate::storage_info::StorageInfo;
use crate::storage_info::StorageInfoView;
use crate::storage_item::StorageItem;
use crate::storage_item::StorageItemView;
use crate::storage_pod::StoragePod;
use crate::string_map::key_views;
use vstd::prelude::*;

verus! {

/// What the caller of a flusher is to do next.
#[derive(Debug, Clone, Copy, PartialEq, Eq, Structural)]
pub enum FlushAction {
    /// Take the step and tell the flusher how it went.
    Take(FlushStep),
    /// Nothing: the flush is done.
    Finished,
    /// Nothing: the flush has failed.
    Failed(StorageError),
}

/// What the caller tells a flusher.
#[derive(Debug)]
pub enum FlushEvent {
    /// The flush is to begin.
    Begin,
    /// The manifest was read: here it is, or `None` where there is none
    /// that can be read.
    InfoRead(Option<StorageInfo>),
    /// The blobs were listed: here are their names, none where the
    /// directory cannot be listed.
    BlobsListed(Vec<String>),
    /// The step was taken.
    Succeeded,
    /// The step failed.
    Failed(StorageError),
}

/// What the caller tells a flusher, as a value.
pub enum FlushEventView {
    Begin,
    InfoRead(Option<StorageInfoView>),
    BlobsListed(Seq<Seq<char>>),
    Succeeded,
    Failed(StorageError),
}

impl View for FlushEvent {
    type V = FlushEventView;

    open spec fn view(&self) -> FlushEventView {
        match *self {
            FlushEvent::Begin => FlushEventView::Begin,
            FlushEvent::InfoRead(info) => FlushEventView::InfoRead(persisted_view(info)),
            FlushEvent::BlobsListed(names) => FlushEventView::BlobsListed(key_views(names@)),
            FlushEvent::Succeeded => FlushEventView::Succeeded,
            FlushEvent::Failed(e) => FlushEventView::Failed(e),
        }
    }
}

/// A flush under way.
#[derive(Debug)]
pub struct Flusher {
    awaiting: Option<FlushStep>,
    over: bool,
    plan: FlushPlan,
    removed: usize,
    written: usize,
}

/// A flush under way, as a value.
pub struct FlusherView {
    /// The step that the caller is taking.
    pub awaiting: Option<FlushStep>,
    /// Whether the flush is done or has failed.
    pub over: bool,
    /// The manifest to write.
    pub info: StorageInfoView,
    /// The names of the blobs to remove.
    pub orphans: Seq<Seq<char>>,
    /// The items whose blobs are to be written.
    pub items: Seq<StorageItemView>,
    /// How many of the blobs to remove were dealt with.
    pub removed: nat,
    /// How many of the blobs to write were written.
    pub written: nat,
}

impl FlusherView {
    /// A flush that has not begun.
    pub open spec fn fresh() -> FlusherView {
        FlusherView {
            awaiting: None,
            over: false,
            info: Map::empty(),
            orphans: Seq::empty(),
            items: Seq::empty(),
            removed: 0,
            written: 0,
        }
    }

    /// The flush once it has ended.
    pub open spec fn ended(self) -> FlusherView {
        FlusherView { awaiting: None, over: true, ..self }
    }

    /// The flush as it awaits the step.
    pub open spec fn awaits(self, step: FlushStep) -> (FlusherView, FlushAction) {
        (FlusherView { awaiting: Some(step), ..self }, FlushAction::Take(step))
    }

    /// The flush as it ends with the error.
    pub open spec fn fails(self, e: StorageError) -> (FlusherView, FlushAction) {
        (self.ended(), FlushAction::Failed(e))
    }

    /// What follows among the blobs: the next blob to remove; when none is
    /// left, the next blob to write; when none is left, the end.
    pub open spec fn next_blob(self) -> (FlusherView, FlushAction) {
        if self.removed < self.orphans.len() {
            self.awaits(FlushStep::RemoveBlob)
        } else if self.written < self.items.len() {
            self.awaits(FlushStep::WriteItem)
        } else {
            (self.ended(), FlushAction::Finished)
        }
    }

    /// What follows once the awaited step is dealt with: after the
    /// manifest the directory of the blobs, then the list of the blobs;
    /// after a blob the next one.
    pub open spec fn proceed(self) -> (FlusherView, FlushAction) {
        match self.awaiting {
            Some(FlushStep::WriteInfo) => self.awaits(FlushStep::CreateBlobDir),
            Some(FlushStep::CreateBlobDir) => self.awaits(FlushStep::ListBlobs),
            Some(FlushStep::RemoveBlob) => FlusherView {
                removed: self.removed + 1,
                ..self
            }.next_blob(),
            Some(FlushStep::WriteItem) => FlusherView {
                written: self.written + 1,
                ..self
            }.next_blob(),
            _ => self.fails(StorageError::OutOfTurn),
        }
    }

    /// What the flush does when it is told of the event.
    ///
    /// It begins with the manifest that is there. When that was read, the
    /// manifest of the pod and the items that are due are fixed, and the
    /// manifest is written, the directory of the blobs is made and the
    /// blobs are listed. When they were listed, the orphans are fixed and
    /// removed one by one; then the items are written one by one. A
    /// failure ends the flush if the step is one whose failure is fatal;
    /// else the flush goes on as if the step had been taken.
    pub open spec fn advance(self, pod: PodView, keys: Seq<Seq<char>>, event: FlushEventView) -> (
        FlusherView,
        FlushAction,
    ) {
        if self.over {
            self.fails(StorageError::OutOfTurn)
        } else {
            match (self.awaiting, event) {
                (None, FlushEventView::Begin) => self.awaits(FlushStep::ReadInfo),
                (Some(FlushStep::ReadInfo), FlushEventView::InfoRead(persisted)) => FlusherView {
                    info: info_of(pod),
                    orphans: Seq::empty(),
                    items: keys.filter(is_due(persisted, pod)).map_values(item_of(pod)),
                    removed: 0,
                    written: 0,
                    ..self
                }.awaits(FlushStep::WriteInfo),
                (Some(FlushStep::ListBlobs), FlushEventView::BlobsListed(names)) => FlusherView {
                    orphans: names.filter(is_orphan(self.info)),
                    removed: 0,
                    ..self
                }.next_blob(),
                (Some(FlushStep::ReadInfo), _) => self.fails(StorageError::OutOfTurn),
                (Some(FlushStep::ListBlobs), _) => self.fails(StorageError::OutOfTurn),
                (Some(step), FlushEventView::Succeeded) => self.proceed(),
                (Some(step), FlushEventView::Failed(e)) => if step.spec_is_fatal() {
                    self.fails(e)
                } else {
                    self.proceed()
                },
                _ => self.fails(StorageError::OutOfTurn),
            }
        }
    }

    /// Whether the flush is among the blobs: it awaits the removal or the
    /// writing of one.
    pub open spec fn among_blobs(self) -> bool {
        !self.over && (self.awaiting == Some(FlushStep::RemoveBlob) || self.awaiting == Some(
            FlushStep::WriteItem,
        ))
    }

    /// The blobs after the awaited step is taken.
    pub open spec fn taken(self, blobs: Blobs) -> Blobs {
        match self.awaiting {
            Some(FlushStep::RemoveBlob) => blobs.remove(self.orphans[self.removed as int]),
            Some(FlushStep::WriteItem) => blobs.insert(
                self.items[self.written as int].id,
                Some(self.items[self.written as int]),
            ),
            _ => blobs,
        }
    }

    /// Whether the counts are within the plan.
    pub open spec fn within(self) -> bool {
        &&& self.removed <= self.orphans.len()
        &&& self.written <= self.items.len()
        &&& self.awaiting == Some(FlushStep::RemoveBlob) ==> self.removed < self.orphans.len()
        &&& self.awaiting == Some(FlushStep::WriteItem) ==> self.written < self.items.len()
            && self.removed == self.orphans.len()
    }

    /// The blobs once every blob that is left to deal with was dealt with.
    pub open spec fn completed(self, blobs: Blobs) -> Blobs
        decreases (self.orphans.len() - self.removed) + (self.items.len() - self.written),
    {
        if self.among_blobs() && self.within() {
            self.proceed().0.completed(self.taken(blobs))
        } else {
            blobs
        }
    }
}

impl View for Flusher {
    type V = FlusherView;

    closed spec fn view(&self) -> FlusherView {
        FlusherView {
            awaiting: self.awaiting,
            over: self.over,
            info: self.plan.info@,
            orphans: key_views(self.plan.orphans@),
            items: item_seq(self.plan.items@),
            removed: self.removed as nat,
            written: self.written as nat,
        }
    }
}

impl Flusher {
    #[verifier::type_invariant]
    spec fn inv(&self) -> bool {
        self@.within()
    }

    /// A flush that has not begun.
    pub fn new() -> (r: Self)
        ensures
            r@ == FlusherView::fresh(),
    {
        let r = Flusher {
            awaiting: None,
            over: false,
            plan: FlushPlan { info: StorageInfo::new(), orphans: Vec::new(), items: Vec::new() },
            removed: 0,
            written: 0,
        };
        proof {
            assert(key_views(r.plan.orphans@) =~= Seq::<Seq<char>>::empty());
            assert(item_seq(r.plan.items@) =~= Seq::<StorageItemView>::empty());
        }
        r
    }

    /// The manifest to write.
    pub fn info(&self) -> (r: &StorageInfo)
        ensures
            r@ == self@.info,
    {
        &self.plan.info
    }

    /// The name of the blob to remove, while the flusher awaits that.
    pub fn orphan(&self) -> (r: Option<&String>)
        ensures
            match r {
                Some(name) => self@.awaiting == Some(FlushStep::RemoveBlob) && self@.removed
                    < self@.orphans.len() && name@ == self@.orphans[self@.removed as int],
                None => self@.awaiting != Some(FlushStep::RemoveBlob),
            },
    {
        proof {
            use_type_invariant(self);
        }
        match self.awaiting {
            Some(FlushStep::RemoveBlob) => Some(&self.plan.orphans[self.removed]),
            _ => None,
        }
    }

    /// The item whose blob is to be written, while the flusher awaits that.
    pub fn item(&self) -> (r: Option<&StorageItem>)
        ensures
            match r {
                Some(item) => self@.awaiting == Some(FlushStep::WriteItem) && self@.written
                    < self@.items.len() && item@ == self@.items[self@.written as int],
                None => self@.awaiting != Some(FlushStep::WriteItem),
            },
    {
        proof {
            use_type_invariant(self);
        }
        match self.awaiting {
            Some(FlushStep::WriteItem) => Some(&self.plan.items[self.written]),
            _ => None,
        }
    }

    fn fails(self, e: StorageError) -> (r: (Self, FlushAction))
        ensures
            (r.0@, r.1) == self@.fails(e),
    {
        proof {
            use_type_invariant(&self);
        }
        (Flusher { awaiting: None, over: true, ..self }, FlushAction::Failed(e))
    }

    fn next_blob(plan: FlushPlan, removed: usize, written: usize) -> (r: (Self, FlushAction))
        requires
            removed <= plan.orphans@.len(),
            written <= plan.items@.len(),
        ensures
            (r.0@, r.1) == (FlusherView {
                awaiting: None,
                over: false,
                info: plan.info@,
                orphans: key_views(plan.orphans@),
                items: item_seq(plan.items@),
                removed: removed as nat,
                written: written as nat,
            }).next_blob(),
    {
        if removed < plan.orphans.len() {
            (
                Flusher { awaiting: Some(FlushStep::RemoveBlob), over: false, plan, removed, written },
                FlushAction::Take(FlushStep::RemoveBlob),
            )
        } else if written < plan.items.len() {
            (
                Flusher { awaiting: Some(FlushStep::WriteItem), over: false, plan, removed, written },
                FlushAction::Take(FlushStep::WriteItem),
            )
        } else {
            (
                Flusher { awaiting: None, over: true, plan, removed, written },
                FlushAction::Finished,
            )
        }
    }

    fn proceed(self) -> (r: (Self, FlushAction))
        requires
            !self@.over,
        ensures
            (r.0@, r.1) == self@.proceed(),
    {
        proof {
            use_type_invariant(&self);
        }
        match self.awaiting {
            Some(FlushStep::WriteInfo) => (
                Flusher { awaiting: Some(FlushStep::CreateBlobDir), ..self },
                FlushAction::Take(FlushStep::CreateBlobDir),
            ),
            Some(FlushStep::CreateBlobDir) => (
                Flusher { awaiting: Some(FlushStep::ListBlobs), ..self },
                FlushAction::Take(FlushStep::ListBlobs),
            ),
            Some(FlushStep::RemoveBlob) => {
                if self.removed < self.plan.orphans.len() {
                    Flusher::next_blob(self.plan, self.removed + 1, self.written)
                } else {
                    self.fails(StorageError::OutOfTurn)
                }
            },
            Some(FlushStep::WriteItem) => {
                if self.written < self.plan.items.len() {
                    Flusher::next_blob(self.plan, self.removed, self.written + 1)
                } else {
                    self.fails(StorageError::OutOfTurn)
                }
            },
            _ => self.fails(StorageError::OutOfTurn),
        }
    }

    fn step(self, pod: &StoragePod, event: FlushEvent) -> (r: (Self, FlushAction))
        ensures
            (r.0@, r.1) == self@.advance(pod@, pod.key_seq(), event@),
    {
        proof {
            use_type_invariant(&self);
        }
        if self.over {
            return self.fails(StorageError::OutOfTurn);
        }
        match (self.awaiting, event) {
            (None, FlushEvent::Begin) => (
                Flusher { awaiting: Some(FlushStep::ReadInfo), ..self },
                FlushAction::Take(FlushStep::ReadInfo),
            ),
            (Some(FlushStep::ReadInfo), FlushEvent::InfoRead(persisted)) => {
                let info = storage_info(pod);
                let items = items_to_persist(pod, &persisted);
                let orphans: Vec<String> = Vec::new();
                assert(key_views(orphans@) =~= Seq::<Seq<char>>::empty());
                (
                    Flusher {
                        awaiting: Some(FlushStep::WriteInfo),
                        over: false,
                        plan: FlushPlan { info, orphans, items },
                        removed: 0,
                        written: 0,
                    },
                    FlushAction::Take(FlushStep::WriteInfo),
                )
            },
            (Some(FlushStep::ListBlobs), FlushEvent::BlobsListed(names)) => {
                let orphans = orphan_blobs(&self.plan.info, &names);
                let plan = FlushPlan { info: self.plan.info, orphans, items: self.plan.items };
                Flusher::next_blob(plan, 0, self.written)
            },
            (Some(FlushStep::ReadInfo), _) => self.fails(StorageError::OutOfTurn),
            (Some(FlushStep::ListBlobs), _) => self.fails(StorageError::OutOfTurn),
            (Some(_), FlushEvent::Succeeded) => self.proceed(),
            (Some(step), FlushEvent::Failed(e)) => {
                if step.is_fatal() {
                    self.fails(e)
                } else {
                    self.proceed()
                }
            },
            _ => self.fails(StorageError::OutOfTurn),
        }
    }

    /// Tells the flusher of an event and learns what to do next. An event
    /// that the flusher has not asked for ends the flush with `OutOfTurn`.
    pub fn advance(&mut self, pod: &StoragePod, event: FlushEvent) -> (r: FlushAction)
        ensures
            (final(self)@, r) == old(self)@.advance(pod@, pod.key_seq(), event@),
    {
        let mut current = Flusher::new();
        std::mem::swap(self, &mut current);
        let (next, action) = current.step(pod, event);
        *self = next;
        action
    }
}

proof fn lemma_write_first(blobs: Blobs, first: StorageItemView, rest: Seq<StorageItemView>)
    ensures
        write_all(blobs, seq![first] + rest) == write_all(
            blobs.insert(first.id, Some(first)),
            rest,
        ),
    decreases rest.len(),
{
    let all = seq![first] + rest;
    if rest.len() == 0 {
        assert(all.drop_last() =~= Seq::<StorageItemView>::empty());
        assert(all.last() == first);
        assert(write_all(blobs, all.drop_last()) == blobs);
    } else {
        lemma_write_first(blobs, first, rest.drop_last());
        assert(all.drop_last() =~= seq![first] + rest.drop_last());
        assert(all.last() == rest.last());
    }
}

proof fn lemma_remove_first(blobs: Blobs, names: Seq<Seq<char>>)
    requires
        names.len() > 0,
    ensures
        remove_all(blobs.remove(names[0]), names.drop_first()) == remove_all(blobs, names),
{
    assert forall|name: Seq<char>|
        names.to_set().contains(name) <==> (name == names[0] || names.drop_first().to_set().contains(
            name,
        )) by {
        if names.contains(name) {
            let i = names.index_of(name);
            if i > 0 {
                assert(names.drop_first()[i - 1] == name);
            }
        }
        if names.drop_first().contains(name) {
            let i = names.drop_first().index_of(name);
            assert(names[i + 1] == name);
        }
    }
    assert(remove_all(blobs.remove(names[0]), names.drop_first()) =~= remove_all(blobs, names));
}

/// The steps among the blobs, taken one by one, remove the blobs that are
/// left to remove and write the blobs that are left to write.
proof fn lemma_completed(v: FlusherView, blobs: Blobs)
    requires
        !v.over,
        v.within(),
    ensures
        v.among_blobs() ==> v.completed(blobs) == write_all(
            remove_all(blobs, v.orphans.skip(v.removed as int)),
            v.items.skip(v.written as int),
        ),
    decreases (v.orphans.len() - v.removed) + (v.items.len() - v.written),
{
    if v.among_blobs() {
        let next = v.proceed().0;
        let after = v.taken(blobs);
        let orphans = v.orphans.skip(v.removed as int);
        let items = v.items.skip(v.written as int);
        assert(v.completed(blobs) == next.completed(after));
        if next.among_blobs() {
            lemma_completed(next, after);
        } else {
            assert(next.orphans.skip(next.removed as int) =~= Seq::<Seq<char>>::empty());
            assert(next.items.skip(next.written as int) =~= Seq::<StorageItemView>::empty());
            assert(remove_all(after, Seq::<Seq<char>>::empty()) =~= after);
        }
        if v.awaiting == Some(FlushStep::RemoveBlob) {
            assert(next.orphans.skip(next.removed as int) =~= orphans.drop_first());
            assert(next.items.skip(next.written as int) =~= items);
            assert(orphans[0] == v.orphans[v.removed as int]);
            lemma_remove_first(blobs, orphans);
        } else {
            assert(orphans =~= Seq::<Seq<char>>::empty());
            assert(remove_all(blobs, orphans) =~= blobs);
            assert(remove_all(after, orphans) =~= after);
            assert(next.orphans.skip(next.removed as int) =~= orphans);
            assert(next.items.skip(next.written as int) =~= items.drop_first());
            assert(items =~= seq![items[0]] + items.drop_first());
            lemma_write_first(blobs, items[0], items.drop_first());
        }
    }
}

/// A flush that is taken step by step, with every step succeeding, leaves
/// the directory that the model of a flush describes. It asks for the
/// manifest, writes the manifest of the pod, makes the directory of the
/// blobs and asks for their names; what it then removes and writes, added
/// to the manifest that it wrote, is the flushed directory.
pub proof fn lemma_flusher_flushes(
    pod: PodView,
    keys: Seq<Seq<char>>,
    disk: Disk,
    names: Seq<Seq<char>>,
)
    ensures
        ({
            let begun = FlusherView::fresh().advance(pod, keys, FlushEventView::Begin);
            let read = begun.0.advance(pod, keys, FlushEventView::InfoRead(disk.info));
            let written = read.0.advance(pod, keys, FlushEventView::Succeeded);
            let made = written.0.advance(pod, keys, FlushEventView::Succeeded);
            let listed = made.0.advance(pod, keys, FlushEventView::BlobsListed(names));
            &&& begun.1 == FlushAction::Take(FlushStep::ReadInfo)
            &&& read.1 == FlushAction::Take(FlushStep::WriteInfo)
            &&& written.1 == FlushAction::Take(FlushStep::CreateBlobDir)
            &&& made.1 == FlushAction::Take(FlushStep::ListBlobs)
            &&& !(listed.1 is Failed)
            &&& (Disk { info: Some(read.0.info), blobs: listed.0.completed(disk.blobs) }) == flushed(
                pod,
                keys,
                disk,
                names,
            )
        }),
{
    let begun = FlusherView::fresh().advance(pod, keys, FlushEventView::Begin);
    let read = begun.0.advance(pod, keys, FlushEventView::InfoRead(disk.info));
    let written = read.0.advance(pod, keys, FlushEventView::Succeeded);
    let made = written.0.advance(pod, keys, FlushEventView::Succeeded);
    let listed = made.0.advance(pod, keys, FlushEventView::BlobsListed(names));
    let orphans = names.filter(is_orphan(info_of(pod)));
    let items = keys.filter(is_due(disk.info, pod)).map_values(item_of(pod));
    assert(orphans.skip(0) =~= orphans);
    assert(items.skip(0) =~= items);
    if listed.0.over {
        assert(orphans =~= Seq::<Seq<char>>::empty());
        assert(items =~= Seq::<StorageItemView>::empty());
        assert(remove_all(disk.blobs, orphans) =~= disk.blobs);
    } else {
        lemma_completed(listed.0, disk.blobs);
    }
}

/// A step that fails ends the flush with its error if it is one that
/// writes the manifest or a blob or makes the directory of the blobs; a
/// blob that cannot be removed is passed over.
pub proof fn lemma_flusher_failure(
    v: FlusherView,
    pod: PodView,
    keys: Seq<Seq<char>>,
    e: StorageError,
)
    requires
        !v.over,
        v.awaiting is Some,
        v.awaiting != Some(FlushStep::ReadInfo),
        v.awaiting != Some(FlushStep::ListBlobs),
    ensures
        v.awaiting->Some_0.spec_is_fatal() ==> v.advance(pod, keys, FlushEventView::Failed(e)) == (
            v.ended(),
            FlushAction::Failed(e),
        ),
        !v.awaiting->Some_0.spec_is_fatal() ==> v.advance(pod, keys, FlushEventView::Failed(e))
            == v.advance(pod, keys, FlushEventView::Succeeded),
{
}

} // verus!
