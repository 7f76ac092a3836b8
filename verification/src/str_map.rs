//! A verified string-to-string map, stored as a vector of key/value pairs
//! with pairwise-distinct keys, abstracted as a `Map<Seq<char>, Seq<char>>`.

use vstd::prelude::*;

use crate::strutil::{str_equal, str_to_owned};

verus! {

pub(crate) open spec fn unique_str_keys(s: Seq<(String, String)>) -> bool {
    forall|i: int, j: int| 0 <= i < j < s.len() ==> (#[trigger] s[i]).0@ != (#[trigger] s[j]).0@
}

pub(crate) open spec fn str_assoc_view(s: Seq<(String, String)>) -> Map<Seq<char>, Seq<char>>
    decreases s.len(),
{
    if s.len() == 0 {
        Map::empty()
    } else {
        str_assoc_view(s.drop_last()).insert(s.last().0@, s.last().1@)
    }
}

proof fn lemma_str_assoc_contains(s: Seq<(String, String)>, k: Seq<char>)
    ensures
        str_assoc_view(s).dom().contains(k) <==> exists|i: int|
            0 <= i < s.len() && (#[trigger] s[i]).0@ == k,
    decreases s.len(),
{
    if s.len() > 0 {
        lemma_str_assoc_contains(s.drop_last(), k);
        if s.last().0@ == k {
            assert(s[s.len() - 1].0@ == k);
        } else {
            if exists|i: int| 0 <= i < s.len() && (#[trigger] s[i]).0@ == k {
                let i = choose|i: int| 0 <= i < s.len() && (#[trigger] s[i]).0@ == k;
                assert(s.drop_last()[i] == s[i]);
            }
            if exists|i: int| 0 <= i < s.drop_last().len() && (#[trigger] s.drop_last()[i]).0@
                == k {
                let i = choose|i: int|
                    0 <= i < s.drop_last().len() && (#[trigger] s.drop_last()[i]).0@ == k;
                assert(s[i] == s.drop_last()[i]);
            }
        }
    }
}

proof fn lemma_str_assoc_value(s: Seq<(String, String)>, i: int)
    requires
        unique_str_keys(s),
        0 <= i < s.len(),
    ensures
        str_assoc_view(s).dom().contains(s[i].0@),
        str_assoc_view(s)[s[i].0@] == s[i].1@,
    decreases s.len(),
{
    if i == s.len() - 1 {
        assert(s.last() == s[i]);
    } else {
        lemma_str_assoc_value(s.drop_last(), i);
        assert(s.drop_last()[i] == s[i]);
        assert(s[i].0@ != s[s.len() - 1].0@);
    }
}

proof fn lemma_str_assoc_remove(s: Seq<(String, String)>, i: int)
    requires
        unique_str_keys(s),
        0 <= i < s.len(),
    ensures
        str_assoc_view(s.remove(i)) == str_assoc_view(s).remove(s[i].0@),
    decreases s.len(),
{
    let k = s[i].0@;
    if i == s.len() - 1 {
        assert(s.remove(i) =~= s.drop_last());
        lemma_str_assoc_contains(s.drop_last(), k);
        assert(forall|j: int| 0 <= j < s.drop_last().len() ==> (#[trigger] s.drop_last()[j]).0@
            == s[j].0@);
        assert(!str_assoc_view(s.drop_last()).dom().contains(k));
        assert(str_assoc_view(s.drop_last()).insert(k, s[i].1@).remove(k) =~= str_assoc_view(
            s.drop_last(),
        ));
    } else {
        let d = s.drop_last();
        assert(s.remove(i).drop_last() =~= d.remove(i));
        assert(s.remove(i).last() == s.last());
        assert(forall|x: int, y: int| 0 <= x < y < d.len() ==> (#[trigger] d[x]).0@
            != (#[trigger] d[y]).0@);
        lemma_str_assoc_remove(d, i);
        assert(d[i] == s[i]);
        assert(s.last().0@ != k);
        assert(str_assoc_view(d).remove(k).insert(s.last().0@, s.last().1@) =~= str_assoc_view(
            d,
        ).insert(s.last().0@, s.last().1@).remove(k));
    }
}

proof fn lemma_str_assoc_len(s: Seq<(String, String)>)
    requires
        unique_str_keys(s),
    ensures
        str_assoc_view(s).dom().finite(),
        str_assoc_view(s).dom().len() == s.len(),
    decreases s.len(),
{
    if s.len() > 0 {
        let d = s.drop_last();
        assert(forall|x: int, y: int| 0 <= x < y < d.len() ==> (#[trigger] d[x]).0@
            != (#[trigger] d[y]).0@);
        lemma_str_assoc_len(d);
        lemma_str_assoc_contains(d, s.last().0@);
        assert(forall|j: int| 0 <= j < d.len() ==> (#[trigger] d[j]).0@ == s[j].0@);
        assert(!str_assoc_view(d).dom().contains(s.last().0@));
    }
}

/// A string-keyed map with string values. Lookups, updates and merges are
/// all verified against the abstract `Map` view.
#[derive(Debug)]
pub struct StrMap {
    entries: Vec<(String, String)>,
}

impl View for StrMap {
    type V = Map<Seq<char>, Seq<char>>;

    closed spec fn view(&self) -> Map<Seq<char>, Seq<char>> {
        str_assoc_view(self.entries@)
    }
}

impl StrMap {
    #[verifier::type_invariant]
    spec fn wf(self) -> bool {
        unique_str_keys(self.entries@)
    }

    /// The keys in storage order; used to iterate the entries while
    /// reasoning about the abstract map.
    pub closed spec fn key_seq(&self) -> Seq<Seq<char>> {
        self.entries@.map_values(|e: (String, String)| e.0@)
    }

    /// Creates an empty map.
    pub fn new() -> (r: StrMap)
        ensures
            r@ == Map::<Seq<char>, Seq<char>>::empty(),
    {
        StrMap { entries: Vec::new() }
    }

    /// Creates an empty map with room reserved for `capacity` entries.
    pub fn with_capacity(capacity: usize) -> (r: StrMap)
        ensures
            r@ == Map::<Seq<char>, Seq<char>>::empty(),
    {
        StrMap { entries: Vec::with_capacity(capacity) }
    }

    /// The number of entries.
    pub fn len(&self) -> (n: usize)
        ensures
            n == self@.dom().len(),
            self@.dom().finite(),
    {
        proof {
            use_type_invariant(self);
            lemma_str_assoc_len(self.entries@);
        }
        self.entries.len()
    }

    /// Whether the map holds no entry.
    pub fn is_empty(&self) -> (r: bool)
        ensures
            r == (self@.dom().len() == 0),
    {
        proof {
            use_type_invariant(self);
            lemma_str_assoc_len(self.entries@);
        }
        self.entries.len() == 0
    }

    /// Looks a key up.
    pub fn get(&self, key: &str) -> (r: Option<&String>)
        ensures
            match r {
                Some(v) => self@.dom().contains(key@) && v@ == self@[key@],
                None => !self@.dom().contains(key@),
            },
    {
        proof {
            use_type_invariant(self);
        }
        let n = self.entries.len();
        let mut i: usize = 0;
        while i < n
            invariant
                n == self.entries@.len(),
                0 <= i <= n,
                unique_str_keys(self.entries@),
                forall|j: int| 0 <= j < i ==> (#[trigger] self.entries@[j]).0@ != key@,
            decreases n - i,
        {
            let e = &self.entries[i];
            if str_equal(e.0.as_str(), key) {
                proof {
                    lemma_str_assoc_value(self.entries@, i as int);
                }
                return Some(&e.1);
            }
            i += 1;
        }
        proof {
            lemma_str_assoc_contains(self.entries@, key@);
        }
        None
    }

    /// Removes a key, handing back its value if it was present.
    pub fn del(&mut self, key: &str) -> (r: Option<String>)
        ensures
            final(self)@ == old(self)@.remove(key@),
            match r {
                Some(v) => old(self)@.dom().contains(key@) && v@ == old(self)@[key@],
                None => !old(self)@.dom().contains(key@) && final(self)@ == old(self)@,
            },
    {
        proof {
            use_type_invariant(&*self);
        }
        let mut entries: Vec<(String, String)> = Vec::new();
        core::mem::swap(&mut entries, &mut self.entries);
        let ghost orig = entries@;
        let n = entries.len();
        let mut i: usize = 0;
        while i < n
            invariant
                n == entries@.len(),
                0 <= i <= n,
                entries@ == orig,
                unique_str_keys(orig),
                self.entries@.len() == 0,
                str_assoc_view(orig) == old(self)@,
                forall|j: int| 0 <= j < i ==> (#[trigger] entries@[j]).0@ != key@,
            decreases n - i,
        {
            let matched = str_equal(entries[i].0.as_str(), key);
            if matched {
                proof {
                    lemma_str_assoc_value(orig, i as int);
                    lemma_str_assoc_remove(orig, i as int);
                }
                let e = entries.remove(i);
                core::mem::swap(&mut entries, &mut self.entries);
                return Some(e.1);
            }
            i += 1;
        }
        core::mem::swap(&mut entries, &mut self.entries);
        proof {
            lemma_str_assoc_contains(orig, key@);
            assert(old(self)@.remove(key@) =~= old(self)@);
        }
        None
    }

    /// Inserts a key/value pair, overwriting any previous value for the key.
    pub fn set(&mut self, key: String, value: String)
        ensures
            final(self)@ == old(self)@.insert(key@, value@),
    {
        let _ = self.del(key.as_str());
        proof {
            use_type_invariant(&*self);
            lemma_str_assoc_contains(self.entries@, key@);
        }
        let ghost mid = self.entries@;
        let mut entries: Vec<(String, String)> = Vec::new();
        core::mem::swap(&mut entries, &mut self.entries);
        entries.push((key, value));
        core::mem::swap(&mut entries, &mut self.entries);
        proof {
            assert(self.entries@.drop_last() =~= mid);
            assert(self@ =~= old(self)@.insert(key@, value@));
        }
    }

    /// Merges `other` into `self`; on a key collision the value from
    /// `other` wins.
    pub fn extend(&mut self, other: StrMap)
        ensures
            final(self)@ == old(self)@.union_prefer_right(other@),
    {
        proof {
            use_type_invariant(&other);
        }
        let StrMap { entries: mut rest } = other;
        while rest.len() != 0
            invariant
                unique_str_keys(rest@),
                self@.union_prefer_right(str_assoc_view(rest@)) == old(self)@.union_prefer_right(
                    other@,
                ),
            decreases rest@.len(),
        {
            let ghost pre = rest@;
            let e = rest.pop().unwrap();
            proof {
                assert(pre.drop_last() =~= rest@);
                lemma_str_assoc_contains(rest@, e.0@);
                assert(!str_assoc_view(rest@).dom().contains(e.0@));
                assert(self@.insert(e.0@, e.1@).union_prefer_right(str_assoc_view(rest@))
                    =~= self@.union_prefer_right(str_assoc_view(pre)));
            }
            self.set(e.0, e.1);
        }
        proof {
            assert(str_assoc_view(rest@) =~= Map::<Seq<char>, Seq<char>>::empty());
            assert(self@.union_prefer_right(str_assoc_view(rest@)) =~= self@);
        }
    }

    /// Empties the map.
    pub fn clear(&mut self)
        ensures
            final(self)@ == Map::<Seq<char>, Seq<char>>::empty(),
    {
        let mut entries: Vec<(String, String)> = Vec::new();
        core::mem::swap(&mut entries, &mut self.entries);
    }

    /// The number of stored entries. Also establishes that `key_seq`
    /// enumerates the map's domain exactly, without repetition.
    pub fn entry_count(&self) -> (n: usize)
        ensures
            n == self.key_seq().len(),
            n == self@.dom().len(),
            self@.dom().finite(),
            forall|i: int| 0 <= i < self.key_seq().len() ==> self@.dom().contains(
                #[trigger] self.key_seq()[i],
            ),
            forall|i: int, j: int| 0 <= i < j < self.key_seq().len() ==> self.key_seq()[i]
                != self.key_seq()[j],
            forall|k: Seq<char>| self@.dom().contains(k) ==> exists|i: int|
                0 <= i < self.key_seq().len() && #[trigger] self.key_seq()[i] == k,
    {
        proof {
            use_type_invariant(self);
            lemma_str_assoc_len(self.entries@);
            assert forall|i: int| 0 <= i < self.key_seq().len() implies self@.dom().contains(
                #[trigger] self.key_seq()[i],
            ) by {
                lemma_str_assoc_value(self.entries@, i);
            }
            assert forall|k: Seq<char>| self@.dom().contains(k) implies exists|i: int|
                0 <= i < self.key_seq().len() && #[trigger] self.key_seq()[i] == k by {
                lemma_str_assoc_contains(self.entries@, k);
                let i = choose|i: int|
                    0 <= i < self.entries@.len() && (#[trigger] self.entries@[i]).0@ == k;
                assert(self.key_seq()[i] == k);
            }
        }
        self.entries.len()
    }

    /// Hands out the entry at position `i` of the storage order.
    pub fn entry_at(&self, i: usize) -> (kv: (&String, &String))
        requires
            i < self.key_seq().len(),
        ensures
            kv.0@ == self.key_seq()[i as int],
            self@.dom().contains(kv.0@),
            self@[kv.0@] == kv.1@,
    {
        proof {
            use_type_invariant(self);
            lemma_str_assoc_value(self.entries@, i as int);
        }
        let e = &self.entries[i];
        (&e.0, &e.1)
    }
}

impl Clone for StrMap {
    /// Clones entry by entry; the copy abstracts to the same map.
    fn clone(&self) -> (r: Self)
        ensures
            r@ == self@,
            r.key_seq() == self.key_seq(),
    {
        proof {
            use_type_invariant(self);
        }
        let n = self.entries.len();
        let mut entries: Vec<(String, String)> = Vec::with_capacity(n);
        let mut i: usize = 0;
        while i < n
            invariant
                n == self.entries@.len(),
                0 <= i <= n,
                entries@.len() == i,
                forall|j: int| 0 <= j < i ==> (#[trigger] entries@[j]).0@ == self.entries@[j].0@
                    && entries@[j].1@ == self.entries@[j].1@,
            decreases n - i,
        {
            let e = &self.entries[i];
            let k = str_to_owned(e.0.as_str());
            let v = str_to_owned(e.1.as_str());
            entries.push((k, v));
            i += 1;
        }
        let r = StrMap { entries };
        proof {
            lemma_str_assoc_view_congruent(r.entries@, self.entries@);
            assert(r.key_seq() =~= self.key_seq());
        }
        r
    }
}

proof fn lemma_str_assoc_view_congruent(a: Seq<(String, String)>, b: Seq<(String, String)>)
    requires
        a.len() == b.len(),
        forall|j: int| 0 <= j < a.len() ==> (#[trigger] a[j]).0@ == b[j].0@ && a[j].1@ == b[j].1@,
    ensures
        str_assoc_view(a) == str_assoc_view(b),
        unique_str_keys(b) ==> unique_str_keys(a),
    decreases a.len(),
{
    if a.len() > 0 {
        lemma_str_assoc_view_congruent(a.drop_last(), b.drop_last());
    }
}

} // verus!
