//! The unit of storage: a key, an identity, a version and an encoded object,
//! with annotations that the engine keeps and does not read.

use crate::storage_codec::decode_from_binary;
use crate::storage_codec::decodes_to;
use crate::storage_codec::encode_to_binary;
use crate::storage_codec::encodes_to;
use crate::storage_codec::payload_view;
use crate::storage_packet::StrorageCodecType;
use crate::storage_persistence::StoragePersistence;
use crate::string_map::key_views;
use crate::string_map::StringMap;
use vstd::prelude::*;

verus! {

/// What kind of object an item carries. The engine records it for the
/// item's readers and does not interpret it.
#[derive(Debug, Clone, Copy, PartialEq, Eq, Structural)]
pub enum ItemType {
    /// Custom type
    /// Client specific custom type, defined on the client side according to the associated item key
    Custom,
    /// Basic type
    Basic(BasicType),
    /// Complex type
    Complex(ComplexType),
}

/// Basic Type
#[derive(Debug, Clone, Copy, PartialEq, Eq, Structural)]
pub enum BasicType {
    Bool,
    I8,
    I16,
    I32,
    I64,
    I128,
    U8,
    U16,
    U32,
    U64,
    U128,
    F32,
    F64,
    Char,
    String,
}

/// Complex Type
#[derive(Debug, Clone, Copy, PartialEq, Eq, Structural)]
pub enum ComplexType {
    Array(BasicType),
    /// A set of values of a basic type.
    SetOf(BasicType),
    /// A map from keys of a basic type to values of a basic type.
    MapOf(BasicType, BasicType),
    Blob,
    Json,
    Xml,
    File,
    Folder,
    Path,
}

/// Storage Item
#[derive(Debug)]
pub struct StorageItem {
    /// The identity of the item: assigned when the item is made, never changed.
    pub id: String,
    /// The key under which the engine stores the item.
    pub key: String,
    /// A counter that the caller raises on each logical update.
    pub version: u64,
    /// The encoded object.
    pub data: Vec<u8>,
    pub item_type: ItemType,
    pub description: Option<String>,
    pub tags: Option<Vec<String>>,
    pub metafields: Option<StringMap<String>>,
    /// `expires_on` - timestamp, defines expiry datetime
    pub expires_on: Option<u64>,
    pub persistence: StoragePersistence,
    /// defines the number of required replications in the cluster
    pub redundancy: u8,
}

/// An item as a value.
pub struct StorageItemView {
    pub id: Seq<char>,
    pub key: Seq<char>,
    pub version: u64,
    pub data: Seq<u8>,
    pub item_type: ItemType,
    pub description: Option<Seq<char>>,
    pub tags: Option<Seq<Seq<char>>>,
    pub metafields: Option<Map<Seq<char>, Seq<char>>>,
    pub expires_on: Option<u64>,
    pub persistence: StoragePersistence,
    pub redundancy: u8,
}

/// The text of a description that may be missing.
pub open spec fn description_view(description: Option<String>) -> Option<Seq<char>> {
    match description {
        Some(d) => Some(d@),
        None => None,
    }
}

/// The tags of a list that may be missing, in order.
pub open spec fn tags_view(tags: Option<Vec<String>>) -> Option<Seq<Seq<char>>> {
    match tags {
        Some(t) => Some(key_views(t@)),
        None => None,
    }
}

/// The names and values of metafields that may be missing.
pub open spec fn metafields_view(metafields: Option<StringMap<String>>) -> Option<
    Map<Seq<char>, Seq<char>>,
> {
    match metafields {
        Some(m) => Some(m@.map_values(|v: String| v@)),
        None => None,
    }
}

impl View for StorageItem {
    type V = StorageItemView;

    open spec fn view(&self) -> StorageItemView {
        StorageItemView {
            id: self.id@,
            key: self.key@,
            version: self.version,
            data: self.data@,
            item_type: self.item_type,
            description: description_view(self.description),
            tags: tags_view(self.tags),
            metafields: metafields_view(self.metafields),
            expires_on: self.expires_on,
            persistence: self.persistence,
            redundancy: self.redundancy,
        }
    }
}

impl StorageItemView {
    /// The item that `new` and `with_type` make of a key, a type, an
    /// identity and an encoded object.
    pub open spec fn fresh(
        key: Seq<char>,
        item_type: ItemType,
        id: Seq<char>,
        data: Seq<u8>,
    ) -> StorageItemView {
        StorageItemView {
            id,
            key,
            version: 0,
            data,
            item_type,
            description: None,
            tags: None,
            metafields: None,
            expires_on: None,
            persistence: StoragePersistence::Memory,
            redundancy: 0,
        }
    }

    /// The item with another encoded object, if there is one.
    pub open spec fn with_data(self, encoded: Option<Seq<u8>>) -> StorageItemView {
        match encoded {
            Some(data) => StorageItemView { data, ..self },
            None => self,
        }
    }

    /// The item with one more tag at the end of its tags.
    pub open spec fn with_tag(self, tag: Seq<char>) -> StorageItemView {
        StorageItemView {
            tags: Some(
                match self.tags {
                    Some(tags) => tags.push(tag),
                    None => seq![tag],
                },
            ),
            ..self
        }
    }

    /// The item with `value` as the metafield `name`, in place of what was there.
    pub open spec fn with_metafield(self, name: Seq<char>, value: Seq<char>) -> StorageItemView {
        StorageItemView {
            metafields: Some(
                match self.metafields {
                    Some(m) => m.insert(name, value),
                    None => Map::<Seq<char>, Seq<char>>::empty().insert(name, value),
                },
            ),
            ..self
        }
    }
}

/// What becomes of an encoded object that may be missing when an item is
/// made of it: where there are bytes, an item that carries them under the
/// key, with a random identity, version 0 and no annotation; where there
/// are none, no item.
pub open spec fn spec_made_of(
    key: Seq<char>,
    item_type: ItemType,
    encoded: Option<Seq<u8>>,
    made: Option<StorageItem>,
) -> bool {
    match encoded {
        Some(data) => made is Some && made->Some_0@ == StorageItemView::fresh(
            key,
            item_type,
            made->Some_0@.id,
            data,
        ) && is_item_id_text(made->Some_0@.id),
        None => made is None,
    }
}

/// Whether `c` is a decimal digit or one of the letters `a` to `f`.
pub open spec fn is_lower_hex_digit(c: char) -> bool {
    ('0' <= c && c <= '9') || ('a' <= c && c <= 'f')
}

/// Whether `s` is the text of a random identity: 36 characters, hyphens
/// after the groups of 8, 4, 4 and 4 lower-case hexadecimal digits, the
/// version digit `4` and a variant digit from `8` to `b`.
pub open spec fn is_item_id_text(s: Seq<char>) -> bool {
    &&& s.len() == 36
    &&& forall|i: int|
        0 <= i < 36 ==> if i == 8 || i == 13 || i == 18 || i == 23 {
            #[trigger] s[i] == '-'
        } else {
            is_lower_hex_digit(s[i])
        }
    &&& s[14] == '4'
    &&& (s[19] == '8' || s[19] == '9' || s[19] == 'a' || s[19] == 'b')
}

/// `uuid::Uuid::new_v4`, rendered by the `Display` of `uuid::Uuid`: a
/// random identity of version 4 in its hyphenated lower-case form. Which
/// identity comes back is left open; its shape is what the contract
/// states. Where the operating system gives no random bytes, `uuid` panics.
#[verifier::external_body]
fn new_item_id() -> (r: String)
    ensures
        is_item_id_text(r@),
{
    uuid::Uuid::new_v4().to_string()
}

impl Clone for StorageItem {
    fn clone(&self) -> (r: Self)
        ensures
            r@ == self@,
    {
        let data = self.data.clone();
        let description = match &self.description {
            Some(d) => Some(d.clone()),
            None => None,
        };
        let tags = match &self.tags {
            Some(t) => Some(t.clone()),
            None => None,
        };
        let metafields = match &self.metafields {
            Some(m) => Some(m.clone()),
            None => None,
        };
        proof {
            assert(data@ =~= self.data@);
            if tags is Some {
                assert(key_views(tags->Some_0@) =~= key_views(self.tags->Some_0@));
            }
            if metafields is Some {
                assert(metafields->Some_0@.map_values(|v: String| v@)
                    =~= self.metafields->Some_0@.map_values(|v: String| v@));
            }
        }
        StorageItem {
            id: self.id.clone(),
            key: self.key.clone(),
            version: self.version,
            data,
            item_type: self.item_type,
            description,
            tags,
            metafields,
            expires_on: self.expires_on,
            persistence: self.persistence,
            redundancy: self.redundancy,
        }
    }
}

impl StorageItem {
    /// The item that carries the encoded object `data` under `key`, with
    /// the identity `id`, version 0 and no annotation.
    pub fn with_id(key: &str, item_type: ItemType, id: String, data: Vec<u8>) -> (r: Self)
        ensures
            r@ == StorageItemView::fresh(key@, item_type, id@, data@),
    {
        StorageItem {
            id,
            key: key.to_owned(),
            version: 0,
            data,
            item_type,
            description: None,
            tags: None,
            metafields: None,
            expires_on: None,
            persistence: StoragePersistence::Memory,
            redundancy: 0,
        }
    }

    /// A new item of custom type that carries `obj`, encoded with the
    /// default codec, under `key`. `None` where the codec refuses `obj`.
    ///
    /// The object is handed to `encode_to_binary` with the default codec.
    /// There is an item if and only if that gave bytes; the item carries
    /// those bytes and a random identity.
    pub fn new<T: bincode::Encode>(key: &str, obj: &T) -> (r: Option<Self>)
        ensures
            exists|encoded: Option<Vec<u8>>| #[trigger]
                encodes_to(obj, StrorageCodecType::Bincode, encoded) && spec_made_of(
                    key@,
                    ItemType::Custom,
                    payload_view(encoded),
                    r,
                ),
            r matches Some(item) ==> item@ == StorageItemView::fresh(
                key@,
                ItemType::Custom,
                item@.id,
                item@.data,
            ) && is_item_id_text(item@.id),
    {
        StorageItem::with_type(key, ItemType::Custom, obj)
    }

    /// A new item of the given type that carries `obj`, encoded with the
    /// default codec, under `key`. `None` where the codec refuses `obj`.
    ///
    /// The object is handed to `encode_to_binary` with the default codec.
    /// There is an item if and only if that gave bytes; the item carries
    /// those bytes and a random identity.
    pub fn with_type<T: bincode::Encode>(key: &str, storage_type: ItemType, obj: &T) -> (r: Option<
        Self,
    >)
        ensures
            exists|encoded: Option<Vec<u8>>| #[trigger]
                encodes_to(obj, StrorageCodecType::Bincode, encoded) && spec_made_of(
                    key@,
                    storage_type,
                    payload_view(encoded),
                    r,
                ),
            r matches Some(item) ==> item@ == StorageItemView::fresh(
                key@,
                storage_type,
                item@.id,
                item@.data,
            ) && is_item_id_text(item@.id),
    {
        let encoded = encode_to_binary(obj, StrorageCodecType::default());
        let ghost given = encoded;
        let r = match encoded {
            Some(data) => Some(StorageItem::with_id(key, storage_type, new_item_id(), data)),
            None => None,
        };
        assert(encodes_to(obj, StrorageCodecType::Bincode, given) && spec_made_of(
            key@,
            storage_type,
            payload_view(given),
            r,
        ));
        r
    }

    /// Puts `encoded` in place of the item's object, if there is one, and
    /// says whether there was.
    pub fn replace_data(&mut self, encoded: Option<Vec<u8>>) -> (r: bool)
        ensures
            r == encoded is Some,
            final(self)@ == old(self)@.with_data(
                match encoded {
                    Some(d) => Some(d@),
                    None => None,
                },
            ),
    {
        match encoded {
            Some(data) => {
                self.data = data;
                true
            },
            None => false,
        }
    }

    /// Encodes `obj` with the default codec and puts the bytes in place of
    /// the item's object. Returns whether the codec accepted `obj`; where
    /// it did not, the item is as it was. The version stays as it is.
    ///
    /// The object is handed to `encode_to_binary` with the default codec.
    /// The result says whether that gave bytes; the bytes, if there are
    /// any, are the item's object from then on.
    pub fn update_object<T: bincode::Encode>(&mut self, obj: &T) -> (r: bool)
        ensures
            exists|encoded: Option<Vec<u8>>| #[trigger]
                encodes_to(obj, StrorageCodecType::Bincode, encoded) && r == encoded is Some
                    && final(self)@ == old(self)@.with_data(payload_view(encoded)),
            r ==> final(self)@ == (StorageItemView { data: final(self)@.data, ..old(self)@ }),
            !r ==> final(self)@ == old(self)@,
    {
        let encoded = encode_to_binary(obj, StrorageCodecType::default());
        let ghost given = encoded;
        let r = self.replace_data(encoded);
        assert(encodes_to(obj, StrorageCodecType::Bincode, given) && r == given is Some && self@
            == old(self)@.with_data(payload_view(given)));
        r
    }

    /// Decodes the item's object with the default codec. `None` where the
    /// bytes are no value of type `T`.
    ///
    /// The item's bytes are handed to `decode_from_binary` with the
    /// default codec; what that gave is the result.
    pub fn get_object<T: bincode::Decode>(&self) -> (r: Option<T>)
        ensures
            decodes_to(self@.data, StrorageCodecType::Bincode, r),
    {
        decode_from_binary(self.data.as_slice(), StrorageCodecType::default())
    }

    pub fn set_description(&mut self, description: &str)
        ensures
            final(self)@ == (StorageItemView { description: Some(description@), ..old(self)@ }),
    {
        self.description = Some(description.to_owned());
    }

    /// Appends `tag` to the item's tags.
    pub fn add_tag(&mut self, tag: &str)
        ensures
            final(self)@ == old(self)@.with_tag(tag@),
    {
        let mut tags: Vec<String> = match self.tags.take() {
            Some(tags) => tags,
            None => Vec::new(),
        };
        let tag_owned = tag.to_owned();
        proof {
            assert(old(self).tags is None ==> key_views(tags@) =~= Seq::<Seq<char>>::empty());
            assert(key_views(tags@.push(tag_owned)) =~= key_views(tags@).push(tag@));
        }
        tags.push(tag_owned);
        self.tags = Some(tags);
    }

    /// Sets the metafield `key` to `value`, in place of what was there.
    pub fn add_metafield(&mut self, key: &str, value: &str)
        ensures
            final(self)@ == old(self)@.with_metafield(key@, value@),
    {
        let mut metafields: StringMap<String> = match self.metafields.take() {
            Some(metafields) => metafields,
            None => StringMap::new(),
        };
        let ghost before = metafields@;
        let value_owned = value.to_owned();
        metafields.insert(key.to_owned(), value_owned);
        proof {
            let f = |v: String| v@;
            assert(before.insert(key@, value_owned).map_values(f) =~= before.map_values(f).insert(
                key@,
                value@,
            ));
            assert(Map::<Seq<char>, String>::empty().map_values(f) =~= Map::<
                Seq<char>,
                Seq<char>,
            >::empty());
        }
        self.metafields = Some(metafields);
    }
}

} // verus!
