//! A verified map from type-identity tokens (`u64`) to values of one
//! shape, stored as a vector of pairs and abstracted as a `Map<u64, V>`.
//! When two stored pairs carry the same token, the later one is the live
//! entry; mutating operations keep at most one pair per token.

use vstd::prelude::*;

verus! {

pub(crate) open spec fn tok_assoc_view<V>(s: Seq<(u64, V)>) -> Map<u64, V>
    decreases s.len(),
{
    if s.len() == 0 {
        Map::empty()
    } else {
        tok_assoc_view(s.drop_last()).insert(s.last().0, s.last().1)
    }
}

proof fn lemma_tok_assoc_contains<V>(s: Seq<(u64, V)>, k: u64)
    ensures
        tok_assoc_view(s).dom().contains(k) <==> exists|i: int|
            0 <= i < s.len() && (#[trigger] s[i]).0 == k,
    decreases s.len(),
{
    if s.len() > 0 {
        lemma_tok_assoc_contains(s.drop_last(), k);
        if s.last().0 == k {
            assert(s[s.len() - 1].0 == k);
        } else {
            if exists|i: int| 0 <= i < s.len() && (#[trigger] s[i]).0 == k {
                let i = choose|i: int| 0 <= i < s.len() && (#[trigger] s[i]).0 == k;
                assert(s.drop_last()[i] == s[i]);
            }
            if exists|i: int| 0 <= i < s.drop_last().len() && (#[trigger] s.drop_last()[i]).0
                == k {
                let i = choose|i: int|
                    0 <= i < s.drop_last().len() && (#[trigger] s.drop_last()[i]).0 == k;
                assert(s[i] == s.drop_last()[i]);
            }
        }
    }
}

/// The live entry for a token is the last stored pair carrying it.
proof fn lemma_tok_assoc_last_match<V>(s: Seq<(u64, V)>, i: int)
    requires
        0 <= i < s.len(),
        forall|j: int| i < j < s.len() ==> (#[trigger] s[j]).0 != s[i].0,
    ensures
        tok_assoc_view(s).dom().contains(s[i].0),
        tok_assoc_view(s)[s[i].0] == s[i].1,
    decreases s.len(),
{
    if i == s.len() - 1 {
        assert(s.last() == s[i]);
    } else {
        assert(s[s.len() - 1].0 != s[i].0);
        assert(forall|j: int| i < j < s.drop_last().len() ==> (#[trigger] s.drop_last()[j]).0
            != s.drop_last()[i].0);
        lemma_tok_assoc_last_match(s.drop_last(), i);
        assert(s.drop_last()[i] == s[i]);
    }
}

/// Dropping every pair that carries token `k` removes `k` from the view
/// and nothing else. `keep` is the retained subsequence.
proof fn lemma_tok_assoc_filter<V>(s: Seq<(u64, V)>, keep: Seq<(u64, V)>, k: u64)
    requires
        keep == s.filter(|e: (u64, V)| e.0 != k),
    ensures
        tok_assoc_view(keep) == tok_assoc_view(s).remove(k),
    decreases s.len(),
{
    reveal_with_fuel(Seq::filter, 2);
    if s.len() == 0 {
        assert(tok_assoc_view(keep) =~= tok_assoc_view(s).remove(k));
    } else {
        let d = s.drop_last();
        let e = s.last();
        lemma_tok_assoc_filter(d, d.filter(|e: (u64, V)| e.0 != k), k);
        if e.0 != k {
            assert(keep == d.filter(|e: (u64, V)| e.0 != k).push(e));
            assert(keep.drop_last() == d.filter(|e: (u64, V)| e.0 != k));
            assert(keep.last() == e);
            assert(tok_assoc_view(keep) =~= tok_assoc_view(s).remove(k));
        } else {
            assert(keep == d.filter(|e: (u64, V)| e.0 != k));
            assert(tok_assoc_view(keep) =~= tok_assoc_view(s).remove(k));
        }
    }
}

/// A map keyed by `u64` type-identity tokens.
#[derive(Debug)]
pub struct TokMap<V> {
    entries: Vec<(u64, V)>,
}

impl<V> View for TokMap<V> {
    type V = Map<u64, V>;

    closed spec fn view(&self) -> Map<u64, V> {
        tok_assoc_view(self.entries@)
    }
}

impl<V> TokMap<V> {
    /// Creates an empty map.
    pub fn new() -> (r: TokMap<V>)
        ensures
            r@ == Map::<u64, V>::empty(),
    {
        TokMap { entries: Vec::new() }
    }

    /// Creates an empty map with room reserved for `capacity` entries.
    pub fn with_capacity(capacity: usize) -> (r: TokMap<V>)
        ensures
            r@ == Map::<u64, V>::empty(),
    {
        TokMap { entries: Vec::with_capacity(capacity) }
    }

    /// Whether a token has an entry.
    pub fn contains(&self, key: u64) -> (r: bool)
        ensures
            r == self@.dom().contains(key),
    {
        let n = self.entries.len();
        let mut i: usize = 0;
        while i < n
            invariant
                n == self.entries@.len(),
                0 <= i <= n,
                forall|j: int| 0 <= j < i ==> (#[trigger] self.entries@[j]).0 != key,
            decreases n - i,
        {
            if self.entries[i].0 == key {
                proof {
                    lemma_tok_assoc_contains(self.entries@, key);
                }
                return true;
            }
            i += 1;
        }
        proof {
            lemma_tok_assoc_contains(self.entries@, key);
        }
        false
    }

    /// Looks a token up; hands back the live entry.
    pub fn get(&self, key: u64) -> (r: Option<&V>)
        ensures
            match r {
                Some(v) => self@.dom().contains(key) && *v == self@[key],
                None => !self@.dom().contains(key),
            },
    {
        let n = self.entries.len();
        let mut i: usize = n;
        while i > 0
            invariant
                n == self.entries@.len(),
                0 <= i <= n,
                forall|j: int| i <= j < n ==> (#[trigger] self.entries@[j]).0 != key,
            decreases i,
        {
            i = i - 1;
            if self.entries[i].0 == key {
                proof {
                    lemma_tok_assoc_last_match(self.entries@, i as int);
                }
                return Some(&self.entries[i].1);
            }
        }
        proof {
            lemma_tok_assoc_contains(self.entries@, key);
        }
        None
    }

    /// Removes every stored pair for a token; hands back the live value if
    /// one was present.
    pub fn remove(&mut self, key: u64) -> (r: Option<V>)
        ensures
            final(self)@ == old(self)@.remove(key),
            match r {
                Some(v) => old(self)@.dom().contains(key) && v == old(self)@[key],
                None => !old(self)@.dom().contains(key) && final(self)@ == old(self)@,
            },
    {
        let ghost orig = self.entries@;
        let n = self.entries.len();
        let mut src: Vec<(u64, V)> = Vec::new();
        let mut found: Option<V> = None;
        let mut i: usize = 0;
        core::mem::swap(&mut src, &mut self.entries);
        let mut dst: Vec<(u64, V)> = Vec::new();
        while src.len() != 0
            invariant
                src@.len() + i == n,
                n == orig.len(),
                src@ == orig.skip(i as int),
                dst@ == orig.subrange(0, i as int).filter(|e: (u64, V)| e.0 != key),
                match found {
                    Some(ref v) => exists|j: int|
                        0 <= j < i && (#[trigger] orig[j]).0 == key && orig[j].1 == *v && forall|
                            l: int,
                        | j < l < i ==> (#[trigger] orig[l]).0 != key,
                    None => forall|j: int| 0 <= j < i ==> (#[trigger] orig[j]).0 != key,
                },
            decreases src@.len(),
        {
            proof {
                assert(src@[0] == orig[i as int]);
            }
            let e = src.remove(0);
            proof {
                reveal_with_fuel(Seq::filter, 2);
                let pre = orig.subrange(0, i as int);
                let cur = orig.subrange(0, (i + 1) as int);
                assert(cur.drop_last() == pre);
                assert(cur.last() == orig[i as int]);
            }
            if e.0 == key {
                found = Some(e.1);
            } else {
                dst.push(e);
            }
            i += 1;
            proof {
                assert(src@ == orig.skip(i as int));
            }
        }
        core::mem::swap(&mut dst, &mut self.entries);
        proof {
            assert(orig.subrange(0, n as int) == orig);
            lemma_tok_assoc_filter(orig, self.entries@, key);
            match found {
                Some(ref v) => {
                    let j = choose|j: int|
                        0 <= j < n && (#[trigger] orig[j]).0 == key && orig[j].1 == *v && forall|
                            l: int,
                        | j < l < n ==> (#[trigger] orig[l]).0 != key;
                    lemma_tok_assoc_last_match(orig, j);
                }
                None => {
                    lemma_tok_assoc_contains(orig, key);
                    assert(old(self)@.remove(key) =~= old(self)@);
                }
            }
        }
        found
    }

    /// Inserts a value for a token, overwriting any previous entry.
    pub fn insert(&mut self, key: u64, value: V)
        ensures
            final(self)@ == old(self)@.insert(key, value),
    {
        let _ = self.remove(key);
        let ghost mid = self.entries@;
        self.entries.push((key, value));
        proof {
            assert(self.entries@.drop_last() =~= mid);
            assert(self@ =~= old(self)@.insert(key, value));
        }
    }

    /// Empties the map.
    pub fn clear(&mut self)
        ensures
            final(self)@ == Map::<u64, V>::empty(),
    {
        self.entries.clear();
    }

    /// Merges `other` into `self`; on a token collision the entry from
    /// `other` wins.
    pub fn extend(&mut self, other: TokMap<V>)
        ensures
            final(self)@ == old(self)@.union_prefer_right(other@),
    {
        let TokMap { entries: mut rest } = other;
        let ghost src = rest@;
        let mut i: usize = 0;
        let n = rest.len();
        while rest.len() != 0
            invariant
                rest@.len() + i == n,
                n == src.len(),
                rest@ == src.skip(i as int),
                self@.union_prefer_right(tok_assoc_view(rest@)) == old(self)@.union_prefer_right(
                    tok_assoc_view(src),
                ),
            decreases rest@.len(),
        {
            proof {
                lemma_tok_assoc_cons(self@, rest@);
            }
            let e = rest.remove(0);
            self.insert(e.0, e.1);
            i += 1;
            proof {
                assert(rest@ == src.skip(i as int));
            }
        }
        proof {
            assert(tok_assoc_view(rest@) =~= Map::<u64, V>::empty());
            assert(self@.union_prefer_right(tok_assoc_view(rest@)) =~= self@);
            assert(tok_assoc_view(src) == other@);
        }
    }

    /// Borrows the live value for a token mutably; the token must have an
    /// entry.
    pub fn get_existing_mut(&mut self, key: u64) -> (r: &mut V)
        requires
            old(self)@.dom().contains(key),
        ensures
            *r == old(self)@[key],
            final(self)@ == old(self)@.insert(key, *final(r)),
    {
        let n = self.entries.len();
        let mut i: usize = 0;
        let mut idx: usize = 0;
        let mut found = false;
        proof {
            lemma_tok_assoc_contains(self.entries@, key);
        }
        while i < n
            invariant
                n == self.entries@.len(),
                0 <= i <= n,
                found ==> idx < i && self.entries@[idx as int].0 == key && forall|j: int|
                    idx < j < i ==> (#[trigger] self.entries@[j]).0 != key,
                !found ==> forall|j: int| 0 <= j < i ==> (#[trigger] self.entries@[j]).0 != key,
            decreases n - i,
        {
            if self.entries[i].0 == key {
                idx = i;
                found = true;
            }
            i += 1;
        }
        proof {
            assert(found);
            lemma_tok_assoc_last_match(self.entries@, idx as int);
        }
        let ghost orig = self.entries@;
        let e = vstd::std_specs::vec::vec_index_mut(&mut self.entries, idx);
        let r = pair_value_mut(e);
        proof {
            lemma_tok_assoc_update(orig, idx as int, *final(r));
        }
        r
    }

    /// Whether the map holds no entry.
    pub fn is_empty(&self) -> (r: bool)
        ensures
            r == (self@.dom() =~= Set::<u64>::empty()),
    {
        proof {
            if self.entries@.len() > 0 {
                lemma_tok_assoc_last_match(
                    self.entries@.drop_last().push(self.entries@.last()),
                    self.entries@.len() - 1,
                );
                assert(self.entries@.drop_last().push(self.entries@.last()) =~= self.entries@);
            }
            lemma_tok_assoc_contains(self.entries@, arbitrary());
        }
        self.entries.len() == 0
    }
}

/// Overwriting the live pair's value updates the view at that token only.
proof fn lemma_tok_assoc_update<V>(s: Seq<(u64, V)>, i: int, v: V)
    requires
        0 <= i < s.len(),
        forall|j: int| i < j < s.len() ==> (#[trigger] s[j]).0 != s[i].0,
    ensures
        tok_assoc_view(s.update(i, (s[i].0, v))) == tok_assoc_view(s).insert(s[i].0, v),
    decreases s.len(),
{
    let k = s[i].0;
    let u = s.update(i, (k, v));
    if i == s.len() - 1 {
        assert(u.drop_last() =~= s.drop_last());
        assert(u.last() == (k, v));
        assert(tok_assoc_view(u) =~= tok_assoc_view(s).insert(k, v));
    } else {
        let d = s.drop_last();
        assert(u.drop_last() =~= d.update(i, (k, v)));
        assert(u.last() == s.last());
        assert(forall|j: int| i < j < d.len() ==> (#[trigger] d[j]).0 != d[i].0);
        lemma_tok_assoc_update(d, i, v);
        assert(s.last().0 != k);
        assert(tok_assoc_view(d).insert(k, v).insert(s.last().0, s.last().1) =~= tok_assoc_view(
            d,
        ).insert(s.last().0, s.last().1).insert(k, v));
    }
}

/// Borrows the value slot of a pair mutably.
fn pair_value_mut<V>(pair: &mut (u64, V)) -> (r: &mut V)
    ensures
        *r == old(pair).1,
        *final(pair) == (old(pair).0, *final(r)),
{
    &mut pair.1
}

/// Working one pair off the front of `rest` and inserting it into `m`
/// preserves the merged result.
proof fn lemma_tok_assoc_cons<V>(m: Map<u64, V>, rest: Seq<(u64, V)>)
    requires
        rest.len() > 0,
    ensures
        m.insert(rest[0].0, rest[0].1).union_prefer_right(tok_assoc_view(rest.skip(1)))
            == m.union_prefer_right(tok_assoc_view(rest)),
    decreases rest.len(),
{
    let e = rest[0];
    if rest.len() == 1 {
        assert(rest.skip(1) =~= Seq::<(u64, V)>::empty());
        assert(rest.drop_last() =~= Seq::<(u64, V)>::empty());
        assert(rest.last() == e);
        assert(m.insert(e.0, e.1).union_prefer_right(tok_assoc_view(rest.skip(1)))
            =~= m.union_prefer_right(tok_assoc_view(rest)));
    } else {
        let d = rest.drop_last();
        let x = rest.last();
        lemma_tok_assoc_cons(m, d);
        assert(rest.skip(1).drop_last() =~= d.skip(1));
        assert(rest.skip(1).len() > 0);
        assert(rest.skip(1).last() == x);
        assert(d[0] == e);
        assert(m.insert(e.0, e.1).union_prefer_right(tok_assoc_view(rest.skip(1)))
            =~= m.insert(e.0, e.1).union_prefer_right(tok_assoc_view(d.skip(1))).insert(x.0, x.1));
        assert(m.union_prefer_right(tok_assoc_view(rest)) =~= m.union_prefer_right(
            tok_assoc_view(d),
        ).insert(x.0, x.1));
    }
}

} // verus!
