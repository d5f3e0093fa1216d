//! A map keyed by strings whose contracts speak of the keys' character
//! sequences.
//!
//! The entries live in two parallel vectors. No key occurs twice: that is the
//! type's invariant, so every operation is a linear scan and behaves as the
//! corresponding operation of a hash map keyed by `String`.

use vstd::prelude::*;

verus! {

/// The views of a sequence of keys, in storage order.
pub open spec fn key_views(keys: Seq<String>) -> Seq<Seq<char>> {
    keys.map_values(|k: String| k@)
}

/// The map that pairs each key with the value stored at the same position.
pub open spec fn map_of<V>(keys: Seq<Seq<char>>, values: Seq<V>) -> Map<Seq<char>, V> {
    Map::new(|k: Seq<char>| keys.contains(k), |k: Seq<char>| values[keys.index_of(k)])
}

proof fn lemma_map_of_update<V>(keys: Seq<Seq<char>>, values: Seq<V>, i: int, v: V)
    requires
        keys.no_duplicates(),
        keys.len() == values.len(),
        0 <= i < keys.len(),
    ensures
        map_of(keys, values.update(i, v)) == map_of(keys, values).insert(keys[i], v),
{
    assert(map_of(keys, values.update(i, v)) =~= map_of(keys, values).insert(keys[i], v));
}

proof fn lemma_map_of_push<V>(keys: Seq<Seq<char>>, values: Seq<V>, k: Seq<char>, v: V)
    requires
        keys.no_duplicates(),
        keys.len() == values.len(),
        !keys.contains(k),
    ensures
        keys.push(k).no_duplicates(),
        map_of(keys.push(k), values.push(v)) == map_of(keys, values).insert(k, v),
{
    let keys2 = keys.push(k);
    let values2 = values.push(v);
    assert(keys2[keys.len() as int] == k);
    assert forall|x: Seq<char>| keys2.contains(x) <==> (keys.contains(x) || x == k) by {
        if keys.contains(x) {
            let j = keys.index_of(x);
            assert(keys2[j] == x);
        }
    }
    assert forall|x: Seq<char>| keys.contains(x) implies values2[keys2.index_of(x)]
        == values[keys.index_of(x)] by {
        let j = keys.index_of(x);
        assert(keys2[j] == x);
    }
    assert(map_of(keys2, values2) =~= map_of(keys, values).insert(k, v));
}

proof fn lemma_map_of_remove<V>(keys: Seq<Seq<char>>, values: Seq<V>, i: int)
    requires
        keys.no_duplicates(),
        keys.len() == values.len(),
        0 <= i < keys.len(),
    ensures
        keys.remove(i).no_duplicates(),
        map_of(keys.remove(i), values.remove(i)) == map_of(keys, values).remove(keys[i]),
{
    let keys2 = keys.remove(i);
    let values2 = values.remove(i);
    assert forall|a: int, b: int| 0 <= a < keys2.len() && 0 <= b < keys2.len() && a != b implies keys2[a]
        != keys2[b] by {
        let a1 = if a < i { a } else { a + 1 };
        let b1 = if b < i { b } else { b + 1 };
        assert(keys2[a] == keys[a1]);
        assert(keys2[b] == keys[b1]);
    }
    assert forall|x: Seq<char>| keys2.contains(x) <==> (keys.contains(x) && x != keys[i]) by {
        if keys2.contains(x) {
            let j = keys2.index_of(x);
            let j1 = if j < i { j } else { j + 1 };
            assert(keys[j1] == x);
        }
        if keys.contains(x) && x != keys[i] {
            let j = keys.index_of(x);
            let j2 = if j < i { j } else { j - 1 };
            assert(keys2[j2] == x);
        }
    }
    assert forall|x: Seq<char>| keys2.contains(x) implies values2[keys2.index_of(x)]
        == values[keys.index_of(x)] by {
        let j = keys2.index_of(x);
        let j1 = if j < i { j } else { j + 1 };
        assert(keys[j1] == x);
        assert(keys.index_of(x) == j1);
    }
    assert(map_of(keys2, values2) =~= map_of(keys, values).remove(keys[i]));
}

proof fn lemma_map_of_dom<V>(keys: Seq<Seq<char>>, values: Seq<V>)
    requires
        keys.no_duplicates(),
    ensures
        map_of(keys, values).dom() == keys.to_set(),
        map_of(keys, values).dom().finite(),
        map_of(keys, values).dom().len() == keys.len(),
{
    assert(map_of(keys, values).dom() =~= keys.to_set());
    vstd::seq_lib::seq_to_set_is_finite(keys);
    keys.unique_seq_to_set();
}

#[derive(Debug)]
struct Table<V> {
    keys: Vec<String>,
    values: Vec<V>,
}

/// A finite map from strings to values of type `V`.
#[derive(Debug)]
pub struct StringMap<V> {
    table: Table<V>,
}

impl<V> View for StringMap<V> {
    type V = Map<Seq<char>, V>;

    closed spec fn view(&self) -> Map<Seq<char>, V> {
        map_of(key_views(self.table.keys@), self.table.values@)
    }
}

impl<V> StringMap<V> {
    #[verifier::type_invariant]
    spec fn inv(&self) -> bool {
        &&& self.table.keys@.len() == self.table.values@.len()
        &&& key_views(self.table.keys@).no_duplicates()
    }

    /// The keys in the order in which `keys` lists them.
    pub closed spec fn key_seq(&self) -> Seq<Seq<char>> {
        key_views(self.table.keys@)
    }

    /// An empty map.
    pub fn new() -> (r: Self)
        ensures
            r@ == Map::<Seq<char>, V>::empty(),
    {
        let r = StringMap { table: Table { keys: Vec::new(), values: Vec::new() } };
        assert(r@ =~= Map::<Seq<char>, V>::empty());
        r
    }

    fn position(&self, key: &str) -> (r: Option<usize>)
        ensures
            match r {
                Some(i) => i < self.table.keys@.len() && key_views(self.table.keys@)[i as int]
                    == key@,
                None => !key_views(self.table.keys@).contains(key@),
            },
    {
        let wanted: String = key.to_owned();
        let mut i: usize = 0;
        while i < self.table.keys.len()
            invariant
                i <= self.table.keys@.len(),
                wanted@ == key@,
                forall|j: int| 0 <= j < i ==> key_views(self.table.keys@)[j] != key@,
            decreases self.table.keys@.len() - i,
        {
            if self.table.keys[i] == wanted {
                return Some(i);
            }
            i = i + 1;
        }
        None
    }

    /// The number of entries.
    pub fn len(&self) -> (r: usize)
        ensures
            self@.dom().finite(),
            r == self@.len(),
    {
        proof {
            use_type_invariant(self);
            lemma_map_of_dom(key_views(self.table.keys@), self.table.values@);
        }
        self.table.keys.len()
    }

    /// Whether the map has no entry.
    pub fn is_empty(&self) -> (r: bool)
        ensures
            r == (self@ == Map::<Seq<char>, V>::empty()),
    {
        proof {
            use_type_invariant(self);
            lemma_map_of_dom(key_views(self.table.keys@), self.table.values@);
            if self.table.keys@.len() == 0 {
                assert(self@ =~= Map::<Seq<char>, V>::empty());
            }
        }
        self.table.keys.len() == 0
    }

    /// Whether `key` has an entry.
    pub fn contains_key(&self, key: &str) -> (r: bool)
        ensures
            r == self@.contains_key(key@),
    {
        self.position(key).is_some()
    }

    /// The value stored under `key`.
    pub fn get(&self, key: &str) -> (r: Option<&V>)
        ensures
            match r {
                Some(v) => self@.contains_key(key@) && *v == self@[key@],
                None => !self@.contains_key(key@),
            },
    {
        proof {
            use_type_invariant(self);
        }
        match self.position(key) {
            Some(i) => Some(&self.table.values[i]),
            None => None,
        }
    }

    /// A mutable borrow of the value stored under `key`. What the caller
    /// leaves behind the borrow becomes the value of `key`.
    pub fn get_mut(&mut self, key: &str) -> (r: Option<&mut V>)
        ensures
            match r {
                Some(v) => old(self)@.contains_key(key@) && *v == old(self)@[key@] && final(self)@
                    == old(self)@.insert(key@, *final(v)),
                None => !old(self)@.contains_key(key@) && final(self)@ == old(self)@,
            },
    {
        proof {
            use_type_invariant(&*self);
        }
        match self.position(key) {
            Some(i) => {
                proof {
                    let ks = key_views(self.table.keys@);
                    let vs = self.table.values@;
                    assert forall|v: V|
                        map_of(ks, vs.update(i as int, v)) == map_of(ks, vs).insert(key@, v) by {
                        lemma_map_of_update(ks, vs, i as int, v);
                    }
                }
                Some(&mut self.table.values[i])
            },
            None => None,
        }
    }

    /// Stores `value` under `key`, in place of what was there.
    pub fn insert(&mut self, key: String, value: V)
        ensures
            final(self)@ == old(self)@.insert(key@, value),
    {
        proof {
            use_type_invariant(&*self);
        }
        match self.position(key.as_str()) {
            Some(i) => {
                proof {
                    lemma_map_of_update(
                        key_views(self.table.keys@),
                        self.table.values@,
                        i as int,
                        value,
                    );
                }
                self.table.values[i] = value;
            },
            None => {
                proof {
                    lemma_map_of_push(
                        key_views(self.table.keys@),
                        self.table.values@,
                        key@,
                        value,
                    );
                    assert(key_views(self.table.keys@.push(key)) =~= key_views(
                        self.table.keys@,
                    ).push(key@));
                }
                let mut table = Table { keys: Vec::new(), values: Vec::new() };
                std::mem::swap(&mut table, &mut self.table);
                table.keys.push(key);
                table.values.push(value);
                self.table = table;
            },
        }
    }

    /// Takes the entry of `key` out of the map and returns its value.
    pub fn remove(&mut self, key: &str) -> (r: Option<V>)
        ensures
            final(self)@ == old(self)@.remove(key@),
            r == (if old(self)@.contains_key(key@) {
                Some(old(self)@[key@])
            } else {
                None
            }),
    {
        proof {
            use_type_invariant(&*self);
        }
        match self.position(key) {
            Some(i) => {
                proof {
                    lemma_map_of_remove(key_views(self.table.keys@), self.table.values@, i as int);
                    assert(key_views(self.table.keys@.remove(i as int)) =~= key_views(
                        self.table.keys@,
                    ).remove(i as int));
                }
                let mut table = Table { keys: Vec::new(), values: Vec::new() };
                std::mem::swap(&mut table, &mut self.table);
                table.keys.remove(i);
                let value = table.values.remove(i);
                self.table = table;
                Some(value)
            },
            None => {
                assert(self@ =~= self@.remove(key@));
                None
            },
        }
    }

    /// Removes every entry.
    pub fn clear(&mut self)
        ensures
            final(self)@ == Map::<Seq<char>, V>::empty(),
    {
        self.table = Table { keys: Vec::new(), values: Vec::new() };
        assert(self@ =~= Map::<Seq<char>, V>::empty());
    }

    /// The keys, each once, in the order of `key_seq`.
    pub fn keys(&self) -> (r: Vec<String>)
        ensures
            key_views(r@) == self.key_seq(),
            self.key_seq().no_duplicates(),
            self.key_seq().to_set() == self@.dom(),
            self@.dom().finite(),
            r@.len() == self@.len(),
    {
        proof {
            use_type_invariant(self);
            lemma_map_of_dom(key_views(self.table.keys@), self.table.values@);
        }
        let mut out: Vec<String> = Vec::new();
        let mut i: usize = 0;
        while i < self.table.keys.len()
            invariant
                i <= self.table.keys@.len(),
                out@.len() == i,
                forall|j: int| 0 <= j < i ==> out@[j]@ == self.table.keys@[j]@,
            decreases self.table.keys@.len() - i,
        {
            out.push(self.table.keys[i].clone());
            i = i + 1;
        }
        assert(key_views(out@) =~= key_views(self.table.keys@));
        out
    }
}

impl<V: Clone> Clone for StringMap<V> {
    /// A map with the same keys in the same order, each value cloned.
    fn clone(&self) -> (r: Self)
        ensures
            r.key_seq() == self.key_seq(),
            r@.dom() == self@.dom(),
            forall|k: Seq<char>| #[trigger] self@.contains_key(k) ==> cloned::<V>(self@[k], r@[k]),
    {
        proof {
            use_type_invariant(self);
        }
        let keys = self.table.keys.clone();
        let values = self.table.values.clone();
        proof {
            assert(key_views(keys@) =~= key_views(self.table.keys@));
            assert(map_of(key_views(keys@), values@).dom() =~= self@.dom());
        }
        StringMap { table: Table { keys, values } }
    }
}

} // verus!
