//! A sibling of `TypeMap` specialized to string payloads: the same
//! token-keyed registry, but storing the strings directly instead of
//! routing them through a tagged payload.

use vstd::prelude::*;

use crate::tok_map::TokMap;

verus! {

/// A store of at most one string per type-identity token.
#[derive(Debug)]
pub struct FastStrMap {
    inner: TokMap<String>,
}

impl View for FastStrMap {
    type V = Map<u64, String>;

    closed spec fn view(&self) -> Map<u64, String> {
        self.inner@
    }
}

impl FastStrMap {
    /// Creates an empty store.
    pub fn new() -> (r: FastStrMap)
        ensures
            r@ == Map::<u64, String>::empty(),
    {
        FastStrMap { inner: TokMap::new() }
    }

    /// Creates an empty store with room reserved for `capacity` entries.
    pub fn with_capacity(capacity: usize) -> (r: FastStrMap)
        ensures
            r@ == Map::<u64, String>::empty(),
    {
        FastStrMap { inner: TokMap::with_capacity(capacity) }
    }

    /// Stores a string under a token, overwriting any previous one.
    pub fn insert(&mut self, key: u64, t: String)
        ensures
            final(self)@ == old(self)@.insert(key, t),
    {
        self.inner.insert(key, t);
    }

    /// Looks a token up.
    pub fn get(&self, key: u64) -> (r: Option<&String>)
        ensures
            match r {
                Some(v) => self@.dom().contains(key) && *v == self@[key],
                None => !self@.dom().contains(key),
            },
    {
        self.inner.get(key)
    }

    /// Borrows a token's string mutably.
    pub fn get_mut(&mut self, key: u64) -> (r: Option<&mut String>)
        ensures
            match r {
                Some(v) => old(self)@.dom().contains(key) && *v == old(self)@[key] && final(self)@
                    == old(self)@.insert(key, *final(v)),
                None => !old(self)@.dom().contains(key) && *final(self) == *old(self),
            },
    {
        if self.inner.contains(key) {
            Some(self.inner.get_existing_mut(key))
        } else {
            None
        }
    }

    /// Whether a token has a string.
    pub fn contains(&self, key: u64) -> (r: bool)
        ensures
            r == self@.dom().contains(key),
    {
        self.inner.contains(key)
    }

    /// Removes a token's string and hands it back.
    pub fn remove(&mut self, key: u64) -> (r: Option<String>)
        ensures
            final(self)@ == old(self)@.remove(key),
            match r {
                Some(v) => old(self)@.dom().contains(key) && v == old(self)@[key],
                None => !old(self)@.dom().contains(key) && final(self)@ == old(self)@,
            },
    {
        self.inner.remove(key)
    }

    /// Empties the store.
    pub fn clear(&mut self)
        ensures
            final(self)@ == Map::<u64, String>::empty(),
    {
        self.inner.clear();
    }

    /// Merges another store's entries into this one; on a token collision
    /// the entry from `other` wins.
    pub fn extend(&mut self, other: FastStrMap)
        ensures
            final(self)@ == old(self)@.union_prefer_right(other@),
    {
        let FastStrMap { inner } = other;
        self.inner.extend(inner);
    }

    /// Whether the store holds no string.
    pub fn is_empty(&self) -> (r: bool)
        ensures
            r == (self@.dom() =~= Set::<u64>::empty()),
    {
        self.inner.is_empty()
    }
}

} // verus!
