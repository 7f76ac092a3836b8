//! The heterogeneous typed store: a registry keyed by a caller-chosen
//! type-identity token, holding at most one payload per token. Payloads
//! are routed through a tagged `Value`, so that the store's behaviour is
//! fully captured by its `Map<u64, Value>` view.

use vstd::prelude::*;

use crate::tok_map::TokMap;

verus! {

/// One stored payload. A token conventionally identifies one payload
/// shape, but nothing depends on that: the store works per token.
#[derive(Debug, PartialEq, Eq)]
pub enum Value {
    /// A marker payload carrying no data.
    Unit,
    Bool(bool),
    I8(i8),
    I16(i16),
    I32(i32),
    I64(i64),
    I128(i128),
    U8(u8),
    U16(u16),
    U32(u32),
    U64(u64),
    U128(u128),
    Text(String),
}

impl Default for Value {
    /// The marker payload.
    fn default() -> (r: Value)
        ensures
            r == Value::Unit,
    {
        Value::Unit
    }
}

/// A store of at most one payload per type-identity token.
#[derive(Debug)]
pub struct TypeMap {
    inner: TokMap<Value>,
}

impl View for TypeMap {
    type V = Map<u64, Value>;

    closed spec fn view(&self) -> Map<u64, Value> {
        self.inner@
    }
}

impl TypeMap {
    /// Creates an empty store.
    pub fn new() -> (r: TypeMap)
        ensures
            r@ == Map::<u64, Value>::empty(),
    {
        TypeMap { inner: TokMap::new() }
    }

    /// Creates an empty store with room reserved for `capacity` entries.
    pub fn with_capacity(capacity: usize) -> (r: TypeMap)
        ensures
            r@ == Map::<u64, Value>::empty(),
    {
        TypeMap { inner: TokMap::with_capacity(capacity) }
    }

    /// Stores a payload under a token, overwriting any previous one.
    pub fn insert(&mut self, key: u64, t: Value)
        ensures
            final(self)@ == old(self)@.insert(key, t),
    {
        self.inner.insert(key, t);
    }

    /// Looks a token up.
    pub fn get(&self, key: u64) -> (r: Option<&Value>)
        ensures
            match r {
                Some(v) => self@.dom().contains(key) && *v == self@[key],
                None => !self@.dom().contains(key),
            },
    {
        self.inner.get(key)
    }

    /// Borrows a token's payload mutably.
    pub fn get_mut(&mut self, key: u64) -> (r: Option<&mut Value>)
        ensures
            match r {
                Some(v) => old(self)@.dom().contains(key) && *v == old(self)@[key] && final(self)@
                    == old(self)@.insert(key, *final(v)),
                None => !old(self)@.dom().contains(key) && *final(self) == *old(self),
            },
    {
        if self.inner.contains(key) {
            Some(self.inner.get_existing_mut(key))
        } else {
            None
        }
    }

    /// Whether a token has a payload.
    pub fn contains(&self, key: u64) -> (r: bool)
        ensures
            r == self@.dom().contains(key),
    {
        self.inner.contains(key)
    }

    /// Removes a token's payload and hands it back.
    pub fn remove(&mut self, key: u64) -> (r: Option<Value>)
        ensures
            final(self)@ == old(self)@.remove(key),
            match r {
                Some(v) => old(self)@.dom().contains(key) && v == old(self)@[key],
                None => !old(self)@.dom().contains(key) && final(self)@ == old(self)@,
            },
    {
        self.inner.remove(key)
    }

    /// Empties the store.
    pub fn clear(&mut self)
        ensures
            final(self)@ == Map::<u64, Value>::empty(),
    {
        self.inner.clear();
    }

    /// Merges another store's entries into this one; on a token collision
    /// the entry from `other` wins.
    pub fn extend(&mut self, other: TypeMap)
        ensures
            final(self)@ == old(self)@.union_prefer_right(other@),
    {
        let TypeMap { inner } = other;
        self.inner.extend(inner);
    }

    /// Whether the store holds no payload.
    pub fn is_empty(&self) -> (r: bool)
        ensures
            r == (self@.dom() =~= Set::<u64>::empty()),
    {
        self.inner.is_empty()
    }

    /// An updatable slot for one token.
    pub fn entry(&mut self, key: u64) -> (e: Entry<'_>)
        ensures
            e.key == key,
            *e.map == *old(self),
            *final(self) == *final(e.map),
    {
        Entry { map: self, key }
    }
}

/// An updatable slot of a `TypeMap`, bound to one token. The fields are
/// public so that the slot's contracts can speak of the borrowed store.
pub struct Entry<'a> {
    pub map: &'a mut TypeMap,
    pub key: u64,
}

impl<'a> Entry<'a> {
    /// Stores `default` if the token has no payload; hands back the
    /// live payload either way.
    pub fn or_insert(self, default: Value) -> (r: &'a mut Value)
        ensures
            *r == (if old(self.map)@.dom().contains(self.key) {
                old(self.map)@[self.key]
            } else {
                default
            }),
            final(self.map)@ == old(self.map)@.insert(self.key, *final(r)),
    {
        let Entry { map, key } = self;
        if !map.inner.contains(key) {
            map.inner.insert(key, default);
        }
        map.inner.get_existing_mut(key)
    }

    /// Stores the payload made by `default` if the token has none; hands
    /// back the live payload either way.
    pub fn or_insert_with<F: FnOnce() -> Value>(self, default: F) -> (r: &'a mut Value)
        requires
            !old(self.map)@.dom().contains(self.key) ==> default.requires(()),
        ensures
            old(self.map)@.dom().contains(self.key) ==> *r == old(self.map)@[self.key],
            !old(self.map)@.dom().contains(self.key) ==> default.ensures((), *r),
            final(self.map)@ == old(self.map)@.insert(self.key, *final(r)),
    {
        let Entry { map, key } = self;
        if !map.inner.contains(key) {
            let v = default();
            map.inner.insert(key, v);
        }
        map.inner.get_existing_mut(key)
    }

    /// Stores the payload made by `default` from the token if the token
    /// has none; hands back the live payload either way.
    pub fn or_insert_with_key<F: FnOnce(u64) -> Value>(self, default: F) -> (r: &'a mut Value)
        requires
            !old(self.map)@.dom().contains(self.key) ==> default.requires((self.key,)),
        ensures
            old(self.map)@.dom().contains(self.key) ==> *r == old(self.map)@[self.key],
            !old(self.map)@.dom().contains(self.key) ==> default.ensures((self.key,), *r),
            final(self.map)@ == old(self.map)@.insert(self.key, *final(r)),
    {
        let Entry { map, key } = self;
        if !map.inner.contains(key) {
            let v = default(key);
            map.inner.insert(key, v);
        }
        map.inner.get_existing_mut(key)
    }

    /// Applies `f` to the payload if the token has one; leaves the store
    /// untouched otherwise.
    pub fn and_modify<F: FnOnce(Value) -> Value>(self, f: F) -> (r: Entry<'a>)
        requires
            old(self.map)@.dom().contains(self.key) ==> f.requires((old(self.map)@[self.key],)),
        ensures
            r.key == self.key,
            old(self.map)@.dom().contains(self.key) ==> (exists|v: Value|
                f.ensures((old(self.map)@[self.key],), v) && (*r.map)@ == old(
                    self.map,
                )@.insert(self.key, v)),
            !old(self.map)@.dom().contains(self.key) ==> (*r.map)@ == old(self.map)@,
            *final(self.map) == *final(r.map),
    {
        let Entry { map, key } = self;
        let taken = map.inner.remove(key);
        match taken {
            Some(v) => {
                let w = f(v);
                map.inner.insert(key, w);
                proof {
                    assert(map.inner@ =~= old(self.map)@.insert(key, w));
                }
            }
            None => {
                proof {
                    assert(map.inner@ =~= old(self.map)@);
                }
            }
        }
        Entry { map, key }
    }

    /// Stores the default payload if the token has none; hands back the
    /// live payload either way.
    pub fn or_default(self) -> (r: &'a mut Value)
        ensures
            *r == (if old(self.map)@.dom().contains(self.key) {
                old(self.map)@[self.key]
            } else {
                Value::Unit
            }),
            final(self.map)@ == old(self.map)@.insert(self.key, *final(r)),
    {
        self.or_insert(Value::Unit)
    }
}

} // verus!
