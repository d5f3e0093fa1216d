//! The manifest: for each key, the identity and the version of the item
//! that was last written for it.

use crate::string_map::key_views;
use crate::string_map::StringMap;
use vstd::prelude::*;

verus! {

/// A manifest as a value: for each key, the identity and the version.
pub type StorageInfoView = Map<Seq<char>, (Seq<char>, u64)>;

/// The manifest of an engine.
#[derive(Debug)]
pub struct StorageInfo {
    entries: StringMap<(String, u64)>,
}

/// The entries of a manifest as values.
pub open spec fn entry_views(entries: Map<Seq<char>, (String, u64)>) -> StorageInfoView {
    entries.map_values(|e: (String, u64)| (e.0@, e.1))
}

impl View for StorageInfo {
    type V = StorageInfoView;

    closed spec fn view(&self) -> StorageInfoView {
        entry_views(self.entries@)
    }
}

impl StorageInfo {
    /// The keys in the order in which `keys` lists them.
    pub closed spec fn key_seq(&self) -> Seq<Seq<char>> {
        self.entries.key_seq()
    }

    /// A manifest without entries.
    pub fn new() -> (r: Self)
        ensures
            r@ == Map::<Seq<char>, (Seq<char>, u64)>::empty(),
    {
        let r = StorageInfo { entries: StringMap::new() };
        assert(r@ =~= Map::<Seq<char>, (Seq<char>, u64)>::empty());
        r
    }

    /// Records the identity and the version of the item of `key`, in place
    /// of what was recorded for it.
    pub fn insert(&mut self, key: String, id: String, version: u64)
        ensures
            final(self)@ == old(self)@.insert(key@, (id@, version)),
    {
        proof {
            assert(entry_views(self.entries@.insert(key@, (id, version))) =~= entry_views(
                self.entries@,
            ).insert(key@, (id@, version)));
        }
        self.entries.insert(key, (id, version));
    }

    /// The identity and the version recorded for `key`.
    pub fn get(&self, key: &str) -> (r: Option<(&String, u64)>)
        ensures
            match r {
                Some((id, version)) => self@.contains_key(key@) && self@[key@] == (id@, version),
                None => !self@.contains_key(key@),
            },
    {
        match self.entries.get(key) {
            Some(entry) => Some((&entry.0, entry.1)),
            None => None,
        }
    }

    /// The keys of the manifest: each key once.
    pub fn keys(&self) -> (r: Vec<String>)
        ensures
            key_views(r@) == self.key_seq(),
            self.key_seq().no_duplicates(),
            self.key_seq().to_set() == self@.dom(),
            self@.dom().finite(),
            r@.len() == self@.len(),
    {
        let r = self.entries.keys();
        assert(self@.dom() =~= self.entries@.dom());
        r
    }

    /// The number of entries.
    pub fn len(&self) -> (r: usize)
        ensures
            self@.dom().finite(),
            r == self@.len(),
    {
        assert(self@.dom() =~= self.entries@.dom());
        self.entries.len()
    }

    /// Whether the manifest has no entry.
    pub fn is_empty(&self) -> (r: bool)
        ensures
            r == (self@ == Map::<Seq<char>, (Seq<char>, u64)>::empty()),
    {
        let r = self.entries.is_empty();
        proof {
            if r {
                assert(self@ =~= Map::<Seq<char>, (Seq<char>, u64)>::empty());
            } else {
                assert(self@.dom() =~= self.entries@.dom());
                assert(self.entries@.dom() != Set::<Seq<char>>::empty()) by {
                    if self.entries@.dom() == Set::<Seq<char>>::empty() {
                        assert(self.entries@ =~= Map::<Seq<char>, (String, u64)>::empty());
                    }
                }
            }
        }
        r
    }

    /// Whether the manifest has an entry for `key`.
    pub fn contains_key(&self, key: &str) -> (r: bool)
        ensures
            r == self@.contains_key(key@),
    {
        self.entries.contains_key(key)
    }
}

} // verus!
