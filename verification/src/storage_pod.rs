//! The items of an engine in memory: a map from key to item.

use crate::storage_codec::decodes_to;
use crate::storage_codec::encode_to_binary;
use crate::storage_codec::encodes_to;
use crate::storage_codec::payload_view;
use crate::storage_item::StorageItem;
use crate::storage_item::StorageItemView;
use crate::storage_packet::StrorageCodecType;
use crate::string_map::key_views;
use crate::string_map::StringMap;
use vstd::prelude::*;

verus! {

/// The items of an engine, each under the key it was inserted with.
#[derive(Debug)]
pub struct StoragePod {
    map: StringMap<StorageItem>,
}

/// The items of a map as values.
pub open spec fn item_views(items: Map<Seq<char>, StorageItem>) -> Map<Seq<char>, StorageItemView> {
    items.map_values(|item: StorageItem| item@)
}

/// Whether every item of the map stands under its own key. A map that is
/// filled through `insert` alone is so; `get_mut` lets a caller change the
/// key that an item carries.
pub open spec fn keyed_by_item_key(items: Map<Seq<char>, StorageItemView>) -> bool {
    forall|k: Seq<char>| #[trigger] items.contains_key(k) ==> items[k].key == k
}

proof fn lemma_item_views_insert(items: Map<Seq<char>, StorageItem>, k: Seq<char>, item: StorageItem)
    ensures
        #[trigger] item_views(items.insert(k, item)) == item_views(items).insert(k, item@),
{
    assert(item_views(items.insert(k, item)) =~= item_views(items).insert(k, item@));
}

proof fn lemma_item_views_remove(items: Map<Seq<char>, StorageItem>, k: Seq<char>)
    ensures
        item_views(items.remove(k)) == item_views(items).remove(k),
{
    assert(item_views(items.remove(k)) =~= item_views(items).remove(k));
}

impl View for StoragePod {
    type V = Map<Seq<char>, StorageItemView>;

    closed spec fn view(&self) -> Map<Seq<char>, StorageItemView> {
        item_views(self.map@)
    }
}

impl Default for StoragePod {
    fn default() -> (r: Self)
        ensures
            r@ == Map::<Seq<char>, StorageItemView>::empty(),
    {
        Self::new()
    }
}

impl StoragePod {
    /// The keys in the order in which `keys` lists them.
    pub closed spec fn key_seq(&self) -> Seq<Seq<char>> {
        self.map.key_seq()
    }

    /// A pod without items.
    pub fn new() -> (r: Self)
        ensures
            r@ == Map::<Seq<char>, StorageItemView>::empty(),
    {
        let r = StoragePod { map: StringMap::new() };
        assert(r@ =~= Map::<Seq<char>, StorageItemView>::empty());
        r
    }

    /// Inserts an item into the storage.
    /// If the storage did have an item with the key present, the item is updated.
    pub fn insert(&mut self, storage_item: StorageItem)
        ensures
            final(self)@ == old(self)@.insert(storage_item@.key, storage_item@),
            keyed_by_item_key(old(self)@) ==> keyed_by_item_key(final(self)@),
    {
        proof {
            lemma_item_views_insert(self.map@, storage_item@.key, storage_item);
        }
        let key = storage_item.key.clone();
        self.map.insert(key, storage_item);
    }

    /// Updates an item into the storage.
    /// The item will be inserted if the storage does not have an item with the key present.
    pub fn update(&mut self, storage_item: StorageItem)
        ensures
            final(self)@ == old(self)@.insert(storage_item@.key, storage_item@),
            keyed_by_item_key(old(self)@) ==> keyed_by_item_key(final(self)@),
    {
        self.insert(storage_item);
    }

    /// Returns a reference to the item corresponding to the key.
    pub fn get(&self, key: &str) -> (r: Option<&StorageItem>)
        ensures
            match r {
                Some(item) => self@.contains_key(key@) && item@ == self@[key@],
                None => !self@.contains_key(key@),
            },
    {
        self.map.get(key)
    }

    /// Returns a mutable reference to the item corresponding to the key.
    /// What the caller leaves behind the reference becomes the item of `key`.
    pub fn get_mut(&mut self, key: &str) -> (r: Option<&mut StorageItem>)
        ensures
            match r {
                Some(item) => old(self)@.contains_key(key@) && item@ == old(self)@[key@]
                    && final(self)@ == old(self)@.insert(key@, final(item)@),
                None => !old(self)@.contains_key(key@) && final(self)@ == old(self)@,
            },
    {
        proof {
            let items = self.map@;
            assert forall|item: StorageItem| #[trigger]
                item_views(items.insert(key@, item)) == item_views(items).insert(key@, item@) by {
                lemma_item_views_insert(items, key@, item);
            }
        }
        self.map.get_mut(key)
    }

    /// Removes an item from the storage.
    pub fn remove(&mut self, key: &str)
        ensures
            final(self)@ == old(self)@.remove(key@),
            !final(self)@.contains_key(key@),
            keyed_by_item_key(old(self)@) ==> keyed_by_item_key(final(self)@),
    {
        proof {
            lemma_item_views_remove(self.map@, key@);
        }
        let _ = self.map.remove(key);
    }

    /// Clears the storage, removing all items.
    pub fn clear(&mut self)
        ensures
            final(self)@ == Map::<Seq<char>, StorageItemView>::empty(),
    {
        self.map.clear();
        assert(self@ =~= Map::<Seq<char>, StorageItemView>::empty());
    }

    /// Returns storage keys: each key once, in no particular order.
    pub fn keys(&self) -> (r: Vec<String>)
        ensures
            key_views(r@) == self.key_seq(),
            self.key_seq().no_duplicates(),
            self.key_seq().to_set() == self@.dom(),
            self@.dom().finite(),
            r@.len() == self@.len(),
    {
        let r = self.map.keys();
        assert(self@.dom() =~= self.map@.dom());
        r
    }

    /// The number of items.
    pub fn len(&self) -> (r: usize)
        ensures
            self@.dom().finite(),
            r == self@.len(),
    {
        assert(self@.dom() =~= self.map@.dom());
        self.map.len()
    }

    /// Returns an object of the item corresponding to the key: the item's
    /// object, decoded with the default codec. `None` where the key has no
    /// item or the item's bytes are no value of type `T`.
    ///
    /// Where the key has an item, the item's bytes are handed to
    /// `decode_from_binary` with the default codec; what that gave is the
    /// result.
    pub fn get_object<T: bincode::Decode>(&self, key: &str) -> (r: Option<T>)
        ensures
            self@.contains_key(key@) ==> decodes_to(
                self@[key@].data,
                StrorageCodecType::Bincode,
                r,
            ),
            !self@.contains_key(key@) ==> r is None,
    {
        match self.map.get(key) {
            Some(item) => item.get_object(),
            None => None,
        }
    }

    /// Puts `encoded` in place of the object of the item of `key`, if there
    /// are bytes and the key has an item. Returns whether the key has an item.
    pub fn replace_object(&mut self, key: &str, encoded: Option<Vec<u8>>) -> (r: bool)
        ensures
            r == old(self)@.contains_key(key@),
            final(self)@ == (if old(self)@.contains_key(key@) {
                old(self)@.insert(
                    key@,
                    old(self)@[key@].with_data(
                        match encoded {
                            Some(d) => Some(d@),
                            None => None,
                        },
                    ),
                )
            } else {
                old(self)@
            }),
            keyed_by_item_key(old(self)@) ==> keyed_by_item_key(final(self)@),
    {
        match self.get_mut(key) {
            Some(item) => {
                let _ = item.replace_data(encoded);
                true
            },
            None => false,
        }
    }

    /// Updates the object of the item corresponding to the key: encodes
    /// `obj` with the default codec and puts the bytes in place of the
    /// item's object. Returns whether the object was updated: `false`
    /// where the key has no item, and where the codec refuses `obj`. In
    /// both cases the pod stays as it was.
    ///
    /// Where the key has an item, the object is handed to
    /// `encode_to_binary` with the default codec. The result says whether
    /// that gave bytes; the bytes, if there are any, are the object of the
    /// key's item from then on, and nothing else of the pod changes.
    pub fn update_object<T: bincode::Encode>(&mut self, key: &str, obj: &T) -> (r: bool)
        ensures
            old(self)@.contains_key(key@) ==> exists|encoded: Option<Vec<u8>>| #[trigger]
                encodes_to(obj, StrorageCodecType::Bincode, encoded) && r == encoded is Some
                    && final(self)@ == old(self)@.insert(
                    key@,
                    old(self)@[key@].with_data(payload_view(encoded)),
                ),
            !old(self)@.contains_key(key@) ==> !r && final(self)@ == old(self)@,
            !r ==> final(self)@ == old(self)@,
            keyed_by_item_key(old(self)@) ==> keyed_by_item_key(final(self)@),
    {
        if self.map.contains_key(key) {
            let encoded = encode_to_binary(obj, StrorageCodecType::default());
            let ghost given = encoded;
            let updated = encoded.is_some();
            let _ = self.replace_object(key, encoded);
            proof {
                assert(encodes_to(obj, StrorageCodecType::Bincode, given) && updated
                    == given is Some && self@ == old(self)@.insert(
                    key@,
                    old(self)@[key@].with_data(payload_view(given)),
                ));
                if !updated {
                    assert(self@ =~= old(self)@);
                }
            }
            updated
        } else {
            false
        }
    }
}

/// Every key that `keys` lists has an item, and in a pod whose items stand
/// under their own keys that item carries the key.
pub proof fn lemma_listed_key_has_item(pod: StoragePod, keys: Seq<Seq<char>>, i: int)
    requires
        keys.to_set() == pod@.dom(),
        0 <= i < keys.len(),
    ensures
        pod@.contains_key(keys[i]),
        keyed_by_item_key(pod@) ==> pod@[keys[i]].key == keys[i],
{
    assert(keys.to_set().contains(keys[i]));
}

/// After an insert the item's key has the item.
pub proof fn lemma_insert_then_get(items: Map<Seq<char>, StorageItemView>, item: StorageItemView)
    ensures
        items.insert(item.key, item).contains_key(item.key),
        items.insert(item.key, item)[item.key] == item,
{
}

/// A pod without items lists no key: after `clear`, `keys` is empty.
pub proof fn lemma_no_item_no_key(keys: Seq<Seq<char>>)
    requires
        keys.to_set() == Map::<Seq<char>, StorageItemView>::empty().dom(),
    ensures
        keys.len() == 0,
{
    if keys.len() > 0 {
        assert(keys.to_set().contains(keys[0]));
    }
}

/// After a remove the key is gone: it is not listed and has no item.
pub proof fn lemma_remove_then_absent(items: Map<Seq<char>, StorageItemView>, key: Seq<char>)
    ensures
        !items.remove(key).dom().contains(key),
        !items.remove(key).contains_key(key),
{
}

} // verus!
