//! The items of an engine and the operations on them.
//!
//! A storage is a pod whose every item stands under the key that it
//! carries: that is the type's invariant, which `insert` keeps because it
//! files an item under its own key, and which no operation here can break.
//! The locks that make the operations safe between threads, and the files
//! of the data directory, are the caller's.

use crate::storage_codec::decodes_to;
use crate::storage_codec::encodes_to;
use crate::storage_codec::payload_view;
use crate::storage_flusher::FlushAction;
use crate::storage_flusher::FlushEvent;
use crate::storage_flusher::Flusher;
use crate::storage_item::StorageItem;
use crate::storage_item::StorageItemView;
use crate::storage_loader::LoadAction;
use crate::storage_loader::LoadEvent;
use crate::storage_loader::Loader;
use crate::storage_packet::StrorageCodecType;
use crate::storage_pod::keyed_by_item_key;
use crate::storage_pod::StoragePod;
use crate::string_map::key_views;
use vstd::prelude::*;

verus! {

/// The items of an engine, each under the key that it carries.
#[derive(Debug)]
pub struct Storage {
    pod: StoragePod,
}

impl View for Storage {
    type V = Map<Seq<char>, StorageItemView>;

    closed spec fn view(&self) -> Map<Seq<char>, StorageItemView> {
        self.pod@
    }
}

impl Default for Storage {
    fn default() -> (r: Self)
        ensures
            r@ == Map::<Seq<char>, StorageItemView>::empty(),
    {
        Self::new()
    }
}

impl Storage {
    #[verifier::type_invariant]
    spec fn inv(&self) -> bool {
        keyed_by_item_key(self.pod@)
    }

    /// The keys in the order in which `keys` lists them.
    pub closed spec fn key_seq(&self) -> Seq<Seq<char>> {
        self.pod.key_seq()
    }

    /// A storage without items.
    pub fn new() -> (r: Self)
        ensures
            r@ == Map::<Seq<char>, StorageItemView>::empty(),
    {
        Storage { pod: StoragePod::new() }
    }

    /// The items as a pod, to plan a flush from.
    pub fn pod(&self) -> (r: &StoragePod)
        ensures
            r@ == self@,
            r.key_seq() == self.key_seq(),
            keyed_by_item_key(r@),
    {
        proof {
            use_type_invariant(self);
        }
        &self.pod
    }

    /// Inserts an item into the storage
    /// If the storage has an item with the key present, the item will be updated
    pub fn insert(&mut self, storage_item: StorageItem)
        ensures
            final(self)@ == old(self)@.insert(storage_item@.key, storage_item@),
    {
        proof {
            use_type_invariant(&*self);
        }
        let mut pod = StoragePod::new();
        std::mem::swap(&mut pod, &mut self.pod);
        pod.insert(storage_item);
        self.pod = pod;
    }

    /// Updates an item into the storage
    /// The item will be inserted if the storage does not have an item with the key present
    pub fn update(&mut self, storage_item: StorageItem)
        ensures
            final(self)@ == old(self)@.insert(storage_item@.key, storage_item@),
    {
        self.insert(storage_item);
    }

    /// Gets an item from the storage corresponding to the key: a copy of
    /// the item as it is now. The item carries the key.
    pub fn get(&self, key: &str) -> (r: Option<StorageItem>)
        ensures
            match r {
                Some(item) => self@.contains_key(key@) && item@ == self@[key@] && item@.key
                    == key@,
                None => !self@.contains_key(key@),
            },
    {
        proof {
            use_type_invariant(self);
        }
        match self.pod.get(key) {
            Some(item) => Some(item.clone()),
            None => None,
        }
    }

    /// Removes an item from the storage
    pub fn remove(&mut self, key: &str)
        ensures
            final(self)@ == old(self)@.remove(key@),
            !final(self)@.contains_key(key@),
    {
        proof {
            use_type_invariant(&*self);
        }
        let mut pod = StoragePod::new();
        std::mem::swap(&mut pod, &mut self.pod);
        pod.remove(key);
        self.pod = pod;
    }

    /// Clears the storage, removing all items
    pub fn clear(&mut self)
        ensures
            final(self)@ == Map::<Seq<char>, StorageItemView>::empty(),
    {
        self.pod = StoragePod::new();
    }

    /// Returns the keys of the stored items: each key once, in no
    /// particular order. Every key that is listed has an item, and the
    /// item carries the key.
    pub fn keys(&self) -> (r: Vec<String>)
        ensures
            key_views(r@) == self.key_seq(),
            self.key_seq().no_duplicates(),
            self.key_seq().to_set() == self@.dom(),
            self@.dom().finite(),
            r@.len() == self@.len(),
            forall|i: int|
                0 <= i < r@.len() ==> self@.contains_key(#[trigger] r@[i]@) && self@[r@[i]@].key
                    == r@[i]@,
    {
        proof {
            use_type_invariant(self);
        }
        let r = self.pod.keys();
        proof {
            assert forall|i: int| 0 <= i < r@.len() implies self@.contains_key(#[trigger] r@[i]@)
                && self@[r@[i]@].key == r@[i]@ by {
                assert(key_views(r@)[i] == r@[i]@);
                assert(self.key_seq().to_set().contains(r@[i]@));
            }
        }
        r
    }

    /// The number of items.
    pub fn len(&self) -> (r: usize)
        ensures
            self@.dom().finite(),
            r == self@.len(),
    {
        self.pod.len()
    }

    /// Returns the inner object of the item corresponding to the key: the
    /// item's object, decoded with the default codec. `None` where the key
    /// has no item or the item's bytes are no value of type `T`.
    pub fn get_inner_object<T: bincode::Decode>(&self, key: &str) -> (r: Option<T>)
        ensures
            self@.contains_key(key@) ==> decodes_to(
                self@[key@].data,
                StrorageCodecType::Bincode,
                r,
            ),
            !self@.contains_key(key@) ==> r is None,
    {
        self.pod.get_object(key)
    }

    /// Updates the inner object of the item corresponding to the key:
    /// encodes `obj` with the default codec and puts the bytes in place of
    /// the item's object. Returns whether the object was updated: `false`
    /// where the key has no item, and where the codec refuses `obj`. In
    /// both cases the storage stays as it was. The identity, the key, the
    /// version and the annotations of the item stay in every case.
    pub fn update_inner_object<T: bincode::Encode>(&mut self, key: &str, obj: &T) -> (r: bool)
        ensures
            old(self)@.contains_key(key@) ==> exists|encoded: Option<Vec<u8>>| #[trigger]
                encodes_to(obj, StrorageCodecType::Bincode, encoded) && r == encoded is Some
                    && final(self)@ == old(self)@.insert(
                    key@,
                    old(self)@[key@].with_data(payload_view(encoded)),
                ),
            !old(self)@.contains_key(key@) ==> !r && final(self)@ == old(self)@,
            !r ==> final(self)@ == old(self)@,
    {
        proof {
            use_type_invariant(&*self);
        }
        let mut pod = StoragePod::new();
        std::mem::swap(&mut pod, &mut self.pod);
        let r = pod.update_object(key, obj);
        self.pod = pod;
        r
    }

    /// Tells the flusher of an event of a flush of this storage and learns
    /// what to do next. The storage stays as it is.
    pub fn flush(&self, flusher: &mut Flusher, event: FlushEvent) -> (r: FlushAction)
        ensures
            (final(flusher)@, r) == old(flusher)@.advance(self@, self.key_seq(), event@),
    {
        flusher.advance(&self.pod, event)
    }

    /// Tells the loader of an event of a load into this storage and
    /// learns what to do next. An item that was read goes into the
    /// storage, under the key that it carries.
    pub fn load(&mut self, loader: &mut Loader, event: LoadEvent) -> (r: LoadAction)
        ensures
            (final(loader)@, final(self)@, r) == old(loader)@.advance(old(self)@, event@),
    {
        proof {
            use_type_invariant(&*self);
        }
        let mut pod = StoragePod::new();
        std::mem::swap(&mut pod, &mut self.pod);
        let r = loader.advance(&mut pod, event);
        self.pod = pod;
        r
    }
}

} // verus!
