//! Per-request metadata carrier.
//!
//! A `MetaInfo` passes out-of-band key/value information between
//! components, and between client and server, without touching business
//! payloads. It holds a typed store, a string-payload typed store, a
//! string key/value map, and one key/value node per direction (forward
//! and backward). Contexts form a tree: a scope is forked into siblings
//! with `derive`, lookups fall back to ancestor scopes, and only the
//! current scope is ever mutable.

use vstd::prelude::*;

pub mod convert;
pub mod faststr_map;
pub mod kv;
pub mod str_map;
pub mod tok_map;
pub mod type_map;
pub(crate) mod strutil;

use std::sync::Arc;

pub use convert::{HttpConverter, RpcConverter};
pub use faststr_map::FastStrMap;
pub use kv::Node;
pub use str_map::StrMap;
pub use type_map::{Entry, TypeMap, Value};

use kv::{empty_node_view, NodeView};
use strutil::str_to_owned;

verus! {

/// The abstract state of a context: its local stores, its two nodes, and
/// the whole state of its parent, recursively.
pub ghost struct MetaView {
    /// The parent scope's state; `None` for a root context.
    pub parent: Option<Box<MetaView>>,
    /// The local typed store; `None` while never written.
    pub tmap: Option<Map<u64, Value>>,
    /// The local string key/value map; `None` while never written.
    pub smap: Option<Map<Seq<char>, Seq<char>>>,
    /// The local string-payload typed store; `None` while never written.
    pub fmap: Option<Map<u64, Seq<char>>>,
    /// The forward node; `None` while never written.
    pub forward: Option<NodeView>,
    /// The backward node; `None` while never written.
    pub backward: Option<NodeView>,
}

/// The state of a fresh root context.
pub open spec fn empty_meta_view() -> MetaView {
    MetaView { parent: None, tmap: None, smap: None, fmap: None, forward: None, backward: None }
}

/// The local typed entries; an unallocated store holds none.
pub open spec fn typed_entries(v: MetaView) -> Map<u64, Value> {
    match v.tmap {
        Some(m) => m,
        None => Map::empty(),
    }
}

/// The local string-payload entries; an unallocated store holds none.
pub open spec fn faststr_entries(v: MetaView) -> Map<u64, Seq<char>> {
    match v.fmap {
        Some(m) => m,
        None => Map::empty(),
    }
}

/// The local string key/value entries; an unallocated map holds none.
pub open spec fn string_entries(v: MetaView) -> Map<Seq<char>, Seq<char>> {
    match v.smap {
        Some(m) => m,
        None => Map::empty(),
    }
}

/// The forward node's state; an unallocated node is empty.
pub open spec fn forward_view(v: MetaView) -> NodeView {
    match v.forward {
        Some(n) => n,
        None => empty_node_view(),
    }
}

/// The backward node's state; an unallocated node is empty.
pub open spec fn backward_view(v: MetaView) -> NodeView {
    match v.backward {
        Some(n) => n,
        None => empty_node_view(),
    }
}

/// A typed lookup: the current scope first, then the ancestor chain,
/// stopping at the first hit.
pub open spec fn lookup_typed(v: MetaView, key: u64) -> Option<Value>
    decreases v,
{
    if typed_entries(v).dom().contains(key) {
        Some(typed_entries(v)[key])
    } else {
        match v.parent {
            Some(p) => lookup_typed(*p, key),
            None => None,
        }
    }
}

/// A string-payload lookup with ancestor fallback.
pub open spec fn lookup_faststr(v: MetaView, key: u64) -> Option<Seq<char>>
    decreases v,
{
    if faststr_entries(v).dom().contains(key) {
        Some(faststr_entries(v)[key])
    } else {
        match v.parent {
            Some(p) => lookup_faststr(*p, key),
            None => None,
        }
    }
}

/// A string key/value lookup with ancestor fallback.
pub open spec fn lookup_string(v: MetaView, key: Seq<char>) -> Option<Seq<char>>
    decreases v,
{
    if string_entries(v).dom().contains(key) {
        Some(string_entries(v)[key])
    } else {
        match v.parent {
            Some(p) => lookup_string(*p, key),
            None => None,
        }
    }
}

/// Whether the context holds any local typed or string overrides. Only
/// the allocation state counts: a store emptied in place still counts as
/// an override, exactly as `derive` observes it.
pub open spec fn has_local_overrides(v: MetaView) -> bool {
    v.tmap is Some || v.smap is Some || v.fmap is Some
}

/// The state of a context built from a parent: the parent linked, its
/// nodes snapshotted, all local stores unallocated.
pub open spec fn from_view(p: MetaView) -> MetaView {
    MetaView {
        parent: Some(Box::new(p)),
        tmap: None,
        smap: None,
        fmap: None,
        forward: p.forward,
        backward: p.backward,
    }
}

/// A context stripped of its nodes, as it stands after being promoted to
/// a shared parent during `derive`.
pub open spec fn promoted_view(v: MetaView) -> MetaView {
    MetaView { forward: None, backward: None, ..v }
}

/// A child made by `derive`'s promotion: the promoted original as
/// parent, the original's nodes moved in, no local stores.
pub open spec fn derived_child_view(v: MetaView) -> MetaView {
    MetaView {
        parent: Some(Box::new(promoted_view(v))),
        tmap: None,
        smap: None,
        fmap: None,
        forward: v.forward,
        backward: v.backward,
    }
}

/// The view with the typed store replaced.
pub open spec fn with_tmap(v: MetaView, m: Option<Map<u64, Value>>) -> MetaView {
    MetaView { tmap: m, ..v }
}

/// The view with the string-payload store replaced.
pub open spec fn with_fmap(v: MetaView, m: Option<Map<u64, Seq<char>>>) -> MetaView {
    MetaView { fmap: m, ..v }
}

/// The view with the string key/value map replaced.
pub open spec fn with_smap(v: MetaView, m: Option<Map<Seq<char>, Seq<char>>>) -> MetaView {
    MetaView { smap: m, ..v }
}

/// The view with the forward node replaced.
pub open spec fn with_forward(v: MetaView, n: Option<NodeView>) -> MetaView {
    MetaView { forward: n, ..v }
}

/// The view with the backward node replaced.
pub open spec fn with_backward(v: MetaView, n: Option<NodeView>) -> MetaView {
    MetaView { backward: n, ..v }
}

/// The map of the string-payload store at the view level.
pub open spec fn fstr_entries_view(m: Map<u64, String>) -> Map<u64, Seq<char>> {
    m.map_values(|s: String| s@)
}

/// The allocation-level view of an optional node.
pub open spec fn node_slot_view(n: Option<Node>) -> Option<NodeView> {
    match n {
        Some(x) => Some(x@),
        None => None,
    }
}

/// The state of a context assembled from a parent and two nodes, with no
/// local stores.
pub open spec fn assembled_view(p: MetaView, f: Option<NodeView>, b: Option<NodeView>) -> MetaView {
    MetaView { parent: Some(Box::new(p)), tmap: None, smap: None, fmap: None, forward: f, backward: b }
}

/// An optional mapping emptied in place: an allocated one keeps its
/// allocation, an unallocated one stays unallocated.
pub open spec fn opt_map_cleared<K, W>(m: Option<Map<K, W>>) -> Option<Map<K, W>> {
    match m {
        Some(x) => Some(Map::empty()),
        None => None,
    }
}

/// The state after `clear`: the parent link dropped and every local
/// store and node emptied in place.
pub open spec fn cleared_view(v: MetaView) -> MetaView {
    MetaView {
        parent: None,
        tmap: opt_map_cleared(v.tmap),
        smap: opt_map_cleared(v.smap),
        fmap: opt_map_cleared(v.fmap),
        forward: match v.forward {
            Some(n) => Some(kv::node_cleared(n)),
            None => None,
        },
        backward: match v.backward {
            Some(n) => Some(kv::node_cleared(n)),
            None => None,
        },
    }
}

/// An optional mapping merged with another: kept as is when nothing
/// comes in, else merged with the incoming entries winning.
pub open spec fn opt_entries_extended<K, W>(a: Option<Map<K, W>>, b: Option<Map<K, W>>) -> Option<
    Map<K, W>,
> {
    match b {
        None => a,
        Some(bm) => Some(
            (match a {
                Some(am) => am,
                None => Map::empty(),
            }).union_prefer_right(bm),
        ),
    }
}

/// An optional node merged with another: adopted wholesale if absent
/// locally, merged segment by segment otherwise.
pub open spec fn opt_node_extended(a: Option<NodeView>, b: Option<NodeView>) -> Option<NodeView> {
    match (a, b) {
        (x, None) => x,
        (None, Some(o)) => Some(o),
        (Some(n), Some(o)) => Some(kv::node_after_extend(n, o)),
    }
}

/// The state after `extend`: every local store and node merged with the
/// other context's local state; the parent link is untouched.
pub open spec fn extended_view(v: MetaView, o: MetaView) -> MetaView {
    MetaView {
        parent: v.parent,
        tmap: opt_entries_extended(v.tmap, o.tmap),
        smap: opt_entries_extended(v.smap, o.smap),
        fmap: opt_entries_extended(v.fmap, o.fmap),
        forward: opt_node_extended(v.forward, o.forward),
        backward: opt_node_extended(v.backward, o.backward),
    }
}

/// The state after a write into one forward segment: the forward node is
/// allocated if needed and the pair inserted into the selected segment.
pub open spec fn fwd_set(v: MetaView, s: kv::Segment, k: Seq<char>, val: Seq<char>) -> MetaView {
    with_forward(
        v,
        Some(
            kv::node_with_seg(
                forward_view(v),
                s,
                kv::seg_after_set(kv::node_seg(forward_view(v), s), k, val),
            ),
        ),
    )
}

/// The state after a deletion from one forward segment; deleting never
/// allocates the node.
pub open spec fn fwd_del(v: MetaView, s: kv::Segment, k: Seq<char>) -> MetaView {
    match v.forward {
        Some(n) => with_forward(v, Some(kv::node_with_seg(n, s, kv::seg_after_del(kv::node_seg(n, s), k)))),
        None => v,
    }
}

/// The state after a write into one backward segment.
pub open spec fn bwd_set(v: MetaView, s: kv::Segment, k: Seq<char>, val: Seq<char>) -> MetaView {
    with_backward(
        v,
        Some(
            kv::node_with_seg(
                backward_view(v),
                s,
                kv::seg_after_set(kv::node_seg(backward_view(v), s), k, val),
            ),
        ),
    )
}

/// The state after a deletion from one backward segment.
pub open spec fn bwd_del(v: MetaView, s: kv::Segment, k: Seq<char>) -> MetaView {
    match v.backward {
        Some(n) => with_backward(v, Some(kv::node_with_seg(n, s, kv::seg_after_del(kv::node_seg(n, s), k)))),
        None => v,
    }
}

/// The per-request metadata context. See the crate documentation.
#[derive(Debug)]
pub struct MetaInfo {
    /// The parent is read-only: a key not found locally is searched for
    /// in the parent scope.
    parent: Option<Arc<MetaInfo>>,
    tmap: Option<TypeMap>,
    smap: Option<StrMap>,
    faststr_tmap: Option<FastStrMap>,
    /// Carries information through client and server, caller to callee.
    forward_node: Option<Node>,
    /// Carries information from callee back to caller.
    backward_node: Option<Node>,
}

impl MetaInfo {
    /// The full abstract state, parent chain included.
    pub closed spec fn m_view(&self) -> MetaView
        decreases *self,
    {
        MetaView {
            parent: match self.parent {
                Some(p) => Some(Box::new((*p).m_view())),
                None => None,
            },
            tmap: match self.tmap {
                Some(m) => Some(m@),
                None => None,
            },
            smap: match self.smap {
                Some(m) => Some(m@),
                None => None,
            },
            fmap: match self.faststr_tmap {
                Some(m) => Some(fstr_entries_view(m@)),
                None => None,
            },
            forward: match self.forward_node {
                Some(n) => Some(n@),
                None => None,
            },
            backward: match self.backward_node {
                Some(n) => Some(n@),
                None => None,
            },
        }
    }
}

impl View for MetaInfo {
    type V = MetaView;

    open spec fn view(&self) -> MetaView {
        self.m_view()
    }
}

/// Relies on Arc::clone: returns a second handle to the same shared
/// context, which therefore has the same abstract state.
#[verifier::external_body]
fn clone_parent_handle(p: &Arc<MetaInfo>) -> (r: Arc<MetaInfo>)
    ensures
        r == *p,
{
    Arc::clone(p)
}

impl MetaInfo {
    /// Creates an empty root context.
    pub fn new() -> (r: MetaInfo)
        ensures
            r@ == empty_meta_view(),
    {
        MetaInfo {
            parent: None,
            tmap: None,
            smap: None,
            faststr_tmap: None,
            forward_node: None,
            backward_node: None,
        }
    }

    /// Creates a context with the given parent. Lookups that miss locally
    /// continue in the parent; the parent's current forward and backward
    /// nodes are snapshotted into the new context.
    ///
    /// `derive` is the cheaper and recommended way to split a scope.
    pub fn from(parent: Arc<MetaInfo>) -> (r: MetaInfo)
        ensures
            r@ == from_view(parent@),
    {
        let forward_node = match parent.forward_node.as_ref() {
            Some(n) => Some(n.clone()),
            None => None,
        };
        let backward_node = match parent.backward_node.as_ref() {
            Some(n) => Some(n.clone()),
            None => None,
        };
        MetaInfo {
            parent: Some(parent),
            tmap: None,
            smap: None,
            faststr_tmap: None,
            forward_node,
            backward_node,
        }
    }

    /// Splits the context into two equivalent sibling scopes.
    ///
    /// Without local typed or string overrides the two siblings share the
    /// original's parent, keeping the tree shallow. With local overrides
    /// the original is promoted into a shared, immutable parent and both
    /// results are fresh children of it.
    pub fn derive(self) -> (r: (MetaInfo, MetaInfo))
        ensures
            !has_local_overrides(self@) ==> r.0@ == self@ && r.1@ == self@,
            has_local_overrides(self@) ==> r.0@ == derived_child_view(self@) && r.1@
                == derived_child_view(self@),
    {
        let mut this = self;
        if this.tmap.is_none() && this.smap.is_none() && this.faststr_tmap.is_none() {
            let parent = match this.parent.as_ref() {
                Some(p) => Some(clone_parent_handle(p)),
                None => None,
            };
            let forward_node = match this.forward_node.as_ref() {
                Some(n) => Some(n.clone()),
                None => None,
            };
            let backward_node = match this.backward_node.as_ref() {
                Some(n) => Some(n.clone()),
                None => None,
            };
            let new = MetaInfo {
                parent,
                tmap: None,
                smap: None,
                faststr_tmap: None,
                forward_node,
                backward_node,
            };
            (this, new)
        } else {
            let forward_node = this.forward_node.take();
            let backward_node = this.backward_node.take();
            let forward_copy = match forward_node.as_ref() {
                Some(n) => Some(n.clone()),
                None => None,
            };
            let backward_copy = match backward_node.as_ref() {
                Some(n) => Some(n.clone()),
                None => None,
            };
            let mi = Arc::new(this);
            let mi2 = clone_parent_handle(&mi);
            (
                MetaInfo::from_node(mi, forward_copy, backward_copy),
                MetaInfo::from_node(mi2, forward_node, backward_node),
            )
        }
    }

    /// Creates a context with the parent and nodes given.
    fn from_node(
        parent: Arc<MetaInfo>,
        forward_node: Option<Node>,
        backward_node: Option<Node>,
    ) -> (r: MetaInfo)
        ensures
            r@ == assembled_view(parent@, node_slot_view(forward_node), node_slot_view(
                backward_node,
            )),
    {
        MetaInfo {
            parent: Some(parent),
            tmap: None,
            smap: None,
            faststr_tmap: None,
            forward_node,
            backward_node,
        }
    }

    /// Stores a typed payload in the current scope, allocating the local
    /// store on first use. Ancestors are shadowed, never replaced.
    pub fn insert(&mut self, key: u64, val: Value)
        ensures
            final(self)@ == with_tmap(
                old(self)@,
                Some(typed_entries(old(self)@).insert(key, val)),
            ),
    {
        if self.tmap.is_none() {
            self.tmap = Some(TypeMap::with_capacity(DEFAULT_MAP_SIZE));
        }
        match &mut self.tmap {
            Some(m) => {
                m.insert(key, val);
                proof {
                    assert(Map::<u64, Value>::empty().insert(key, val) =~= typed_entries(
                        empty_meta_view(),
                    ).insert(key, val));
                }
            }
            None => {
                proof {
                    assert(false);
                }
            }
        }
    }

    /// Stores a string payload in the current scope, allocating the local
    /// store on first use.
    pub fn insert_faststr(&mut self, key: u64, val: String)
        ensures
            final(self)@ == with_fmap(
                old(self)@,
                Some(faststr_entries(old(self)@).insert(key, val@)),
            ),
    {
        if self.faststr_tmap.is_none() {
            self.faststr_tmap = Some(FastStrMap::with_capacity(DEFAULT_MAP_SIZE));
        }
        match &mut self.faststr_tmap {
            Some(m) => {
                let ghost pre = m@;
                m.insert(key, val);
                proof {
                    assert(fstr_entries_view(pre.insert(key, val)) =~= fstr_entries_view(
                        pre,
                    ).insert(key, val@));
                    assert(fstr_entries_view(Map::<u64, String>::empty()) =~= Map::<
                        u64,
                        Seq<char>,
                    >::empty());
                }
            }
            None => {
                proof {
                    assert(false);
                }
            }
        }
    }

    /// Stores a string key/value pair in the current scope, allocating
    /// the local map on first use.
    pub fn insert_string(&mut self, key: String, val: String)
        ensures
            final(self)@ == with_smap(
                old(self)@,
                Some(string_entries(old(self)@).insert(key@, val@)),
            ),
    {
        if self.smap.is_none() {
            self.smap = Some(StrMap::with_capacity(DEFAULT_MAP_SIZE));
        }
        match &mut self.smap {
            Some(m) => {
                m.set(key, val);
            }
            None => {
                proof {
                    assert(false);
                }
            }
        }
    }

    /// Whether a typed payload is visible from this scope, locally or in
    /// any ancestor.
    pub fn contains(&self, key: u64) -> (r: bool)
        ensures
            r == (lookup_typed(self@, key) is Some),
        decreases *self,
    {
        let local = match self.tmap.as_ref() {
            Some(m) => m.contains(key),
            None => false,
        };
        if local {
            return true;
        }
        match self.parent.as_ref() {
            Some(p) => p.contains(key),
            None => false,
        }
    }

    /// Whether a string payload is visible from this scope.
    pub fn contains_faststr(&self, key: u64) -> (r: bool)
        ensures
            r == (lookup_faststr(self@, key) is Some),
        decreases *self,
    {
        let local = match self.faststr_tmap.as_ref() {
            Some(m) => m.contains(key),
            None => false,
        };
        if local {
            return true;
        }
        match self.parent.as_ref() {
            Some(p) => p.contains_faststr(key),
            None => false,
        }
    }

    /// Whether a string key is visible from this scope.
    pub fn contains_string(&self, key: &str) -> (r: bool)
        ensures
            r == (lookup_string(self@, key@) is Some),
        decreases *self,
    {
        let local = match self.smap.as_ref() {
            Some(m) => m.get(key).is_some(),
            None => false,
        };
        if local {
            return true;
        }
        match self.parent.as_ref() {
            Some(p) => p.contains_string(key),
            None => false,
        }
    }

    /// Looks a typed payload up, in this scope first, then in the
    /// ancestor chain.
    pub fn get(&self, key: u64) -> (r: Option<&Value>)
        ensures
            match r {
                Some(v) => lookup_typed(self@, key) == Some(*v),
                None => lookup_typed(self@, key) is None,
            },
        decreases *self,
    {
        let local = match self.tmap.as_ref() {
            Some(m) => m.get(key),
            None => None,
        };
        match local {
            Some(v) => Some(v),
            None => match self.parent.as_ref() {
                Some(p) => p.get(key),
                None => None,
            },
        }
    }

    /// Looks a string payload up, with ancestor fallback.
    pub fn get_faststr(&self, key: u64) -> (r: Option<&String>)
        ensures
            match r {
                Some(v) => lookup_faststr(self@, key) == Some(v@),
                None => lookup_faststr(self@, key) is None,
            },
        decreases *self,
    {
        let local = match self.faststr_tmap.as_ref() {
            Some(m) => m.get(key),
            None => None,
        };
        match local {
            Some(v) => Some(v),
            None => match self.parent.as_ref() {
                Some(p) => p.get_faststr(key),
                None => None,
            },
        }
    }

    /// Looks a string key up, with ancestor fallback.
    pub fn get_string(&self, key: &str) -> (r: Option<&String>)
        ensures
            match r {
                Some(v) => lookup_string(self@, key@) == Some(v@),
                None => lookup_string(self@, key@) is None,
            },
        decreases *self,
    {
        let local = match self.smap.as_ref() {
            Some(m) => m.get(key),
            None => None,
        };
        match local {
            Some(v) => Some(v),
            None => match self.parent.as_ref() {
                Some(p) => p.get_string(key),
                None => None,
            },
        }
    }

    /// Removes a typed payload from the current scope only and hands it
    /// back; a payload shadowed in an ancestor becomes visible again.
    pub fn remove(&mut self, key: u64) -> (r: Option<Value>)
        ensures
            final(self)@ == with_tmap(
                old(self)@,
                match old(self)@.tmap {
                    Some(m) => Some(m.remove(key)),
                    None => None,
                },
            ),
            match r {
                Some(v) => typed_entries(old(self)@).dom().contains(key) && v == typed_entries(
                    old(self)@,
                )[key],
                None => !typed_entries(old(self)@).dom().contains(key),
            },
    {
        match &mut self.tmap {
            Some(m) => m.remove(key),
            None => None,
        }
    }

    /// Removes a string payload from the current scope only.
    pub fn remove_faststr(&mut self, key: u64) -> (r: Option<String>)
        ensures
            final(self)@ == with_fmap(
                old(self)@,
                match old(self)@.fmap {
                    Some(m) => Some(m.remove(key)),
                    None => None,
                },
            ),
            match r {
                Some(v) => faststr_entries(old(self)@).dom().contains(key) && v@
                    == faststr_entries(old(self)@)[key],
                None => !faststr_entries(old(self)@).dom().contains(key),
            },
    {
        match &mut self.faststr_tmap {
            Some(m) => {
                let ghost pre = m@;
                let r = m.remove(key);
                proof {
                    assert(fstr_entries_view(pre.remove(key)) =~= fstr_entries_view(pre).remove(
                        key,
                    ));
                }
                r
            }
            None => None,
        }
    }

    /// Drops the parent link and empties all local stores and both
    /// nodes. Ancestors are unaffected and remain reachable through any
    /// other context that still holds them.
    pub fn clear(&mut self)
        ensures
            final(self)@ == cleared_view(old(self)@),
    {
        self.parent = None;
        match &mut self.tmap {
            Some(m) => m.clear(),
            None => {}
        }
        match &mut self.smap {
            Some(m) => m.clear(),
            None => {}
        }
        match &mut self.faststr_tmap {
            Some(m) => {
                m.clear();
                proof {
                    assert(fstr_entries_view(Map::<u64, String>::empty()) =~= Map::<
                        u64,
                        Seq<char>,
                    >::empty());
                }
            }
            None => {}
        }
        match &mut self.forward_node {
            Some(n) => n.clear(),
            None => {}
        }
        match &mut self.backward_node {
            Some(n) => n.clear(),
            None => {}
        }
    }

    /// Merges another context's local state into this one's: typed and
    /// string stores entry by entry with the incoming side winning, nodes
    /// segment by segment. Parent links on both sides play no part.
    pub fn extend(&mut self, other: MetaInfo)
        ensures
            final(self)@ == extended_view(old(self)@, other@),
    {
        let MetaInfo {
            parent: _,
            tmap: other_tmap,
            smap: other_smap,
            faststr_tmap: other_fmap,
            forward_node: other_forward,
            backward_node: other_backward,
        } = other;
        match other_tmap {
            Some(t) => {
                if self.tmap.is_none() {
                    self.tmap = Some(TypeMap::with_capacity(DEFAULT_MAP_SIZE));
                }
                match &mut self.tmap {
                    Some(m) => {
                        m.extend(t);
                        proof {
                            assert(Map::<u64, Value>::empty().union_prefer_right(t@)
                                =~= t@);
                        }
                    }
                    None => {
                        proof {
                            assert(false);
                        }
                    }
                }
            }
            None => {}
        }
        match other_smap {
            Some(t) => {
                if self.smap.is_none() {
                    self.smap = Some(StrMap::with_capacity(DEFAULT_MAP_SIZE));
                }
                match &mut self.smap {
                    Some(m) => {
                        m.extend(t);
                        proof {
                            assert(Map::<Seq<char>, Seq<char>>::empty().union_prefer_right(
                                old(self)@.smap->Some_0,
                            ) =~= old(self)@.smap->Some_0) by {
                                if old(self)@.smap is Some {
                                }
                            }
                        }
                    }
                    None => {
                        proof {
                            assert(false);
                        }
                    }
                }
            }
            None => {}
        }
        match other_fmap {
            Some(t) => {
                if self.faststr_tmap.is_none() {
                    self.faststr_tmap = Some(FastStrMap::with_capacity(DEFAULT_MAP_SIZE));
                }
                match &mut self.faststr_tmap {
                    Some(m) => {
                        let ghost pre = m@;
                        let ghost incoming = t@;
                        m.extend(t);
                        proof {
                            assert(fstr_entries_view(pre.union_prefer_right(incoming))
                                =~= fstr_entries_view(pre).union_prefer_right(
                                fstr_entries_view(incoming),
                            ));
                            assert(fstr_entries_view(Map::<u64, String>::empty()) =~= Map::<
                                u64,
                                Seq<char>,
                            >::empty());
                        }
                    }
                    None => {
                        proof {
                            assert(false);
                        }
                    }
                }
            }
            None => {}
        }
        match other_forward {
            Some(n) => {
                match &mut self.forward_node {
                    Some(mine) => mine.extend(n),
                    None => {
                        self.forward_node = Some(n);
                    }
                }
            }
            None => {}
        }
        match other_backward {
            Some(n) => {
                match &mut self.backward_node {
                    Some(mine) => mine.extend(n),
                    None => {
                        self.backward_node = Some(n);
                    }
                }
            }
            None => {}
        }
    }

    /// Removes a string key from the current scope only.
    pub fn remove_string(&mut self, key: &str) -> (r: Option<String>)
        ensures
            final(self)@ == with_smap(
                old(self)@,
                match old(self)@.smap {
                    Some(m) => Some(m.remove(key@)),
                    None => None,
                },
            ),
            match r {
                Some(v) => string_entries(old(self)@).dom().contains(key@) && v@ == string_entries(
                    old(self)@,
                )[key@],
                None => !string_entries(old(self)@).dom().contains(key@),
            },
    {
        match &mut self.smap {
            Some(m) => m.del(key),
            None => None,
        }
    }
}

impl MetaInfo {
    fn ensure_forward_node(&mut self)
        ensures
            final(self)@ == with_forward(old(self)@, Some(forward_view(old(self)@))),
    {
        if self.forward_node.is_none() {
            self.forward_node = Some(Node::new());
        }
    }

    fn ensure_backward_node(&mut self)
        ensures
            final(self)@ == with_backward(old(self)@, Some(backward_view(old(self)@))),
    {
        if self.backward_node.is_none() {
            self.backward_node = Some(Node::new());
        }
    }

    /// Stores a pair in the forward `persistent` segment: data meant to
    /// survive the whole call chain.
    pub fn set_persistent(&mut self, key: String, value: String)
        ensures
            final(self)@ == fwd_set(old(self)@, kv::Segment::Persistent, key@, value@),
    {
        self.ensure_forward_node();
        match &mut self.forward_node {
            Some(n) => n.set_persistent(key, value),
            None => {
                proof {
                    assert(false);
                }
            }
        }
    }

    /// Stores a pair in the forward `transient` segment: data meant to
    /// survive one hop.
    pub fn set_transient(&mut self, key: String, value: String)
        ensures
            final(self)@ == fwd_set(old(self)@, kv::Segment::Transient, key@, value@),
    {
        self.ensure_forward_node();
        match &mut self.forward_node {
            Some(n) => n.set_transient(key, value),
            None => {
                proof {
                    assert(false);
                }
            }
        }
    }

    /// Stores a pair in the forward node's `stale` segment, which carries
    /// upstream data.
    pub fn set_upstream(&mut self, key: String, value: String)
        ensures
            final(self)@ == fwd_set(old(self)@, kv::Segment::Stale, key@, value@),
    {
        self.ensure_forward_node();
        match &mut self.forward_node {
            Some(n) => n.set_stale(key, value),
            None => {
                proof {
                    assert(false);
                }
            }
        }
    }

    /// Looks a key up in the forward `persistent` segment.
    pub fn get_persistent(&self, key: &str) -> (r: Option<String>)
        ensures
            match r {
                Some(v) => kv::seg_entries(forward_view(self@).persistent).dom().contains(key@)
                    && v@ == kv::seg_entries(forward_view(self@).persistent)[key@],
                None => !kv::seg_entries(forward_view(self@).persistent).dom().contains(key@),
            },
    {
        match self.forward_node.as_ref() {
            Some(n) => match n.get_persistent(key) {
                Some(v) => Some(str_to_owned(v.as_str())),
                None => None,
            },
            None => None,
        }
    }

    /// Looks a key up in the forward `transient` segment.
    pub fn get_transient(&self, key: &str) -> (r: Option<String>)
        ensures
            match r {
                Some(v) => kv::seg_entries(forward_view(self@).transient).dom().contains(key@)
                    && v@ == kv::seg_entries(forward_view(self@).transient)[key@],
                None => !kv::seg_entries(forward_view(self@).transient).dom().contains(key@),
            },
    {
        match self.forward_node.as_ref() {
            Some(n) => match n.get_transient(key) {
                Some(v) => Some(str_to_owned(v.as_str())),
                None => None,
            },
            None => None,
        }
    }

    /// Looks a key up in the forward node's `stale` segment.
    pub fn get_upstream(&self, key: &str) -> (r: Option<String>)
        ensures
            match r {
                Some(v) => kv::seg_entries(forward_view(self@).stale).dom().contains(key@) && v@
                    == kv::seg_entries(forward_view(self@).stale)[key@],
                None => !kv::seg_entries(forward_view(self@).stale).dom().contains(key@),
            },
    {
        match self.forward_node.as_ref() {
            Some(n) => match n.get_stale(key) {
                Some(v) => Some(str_to_owned(v.as_str())),
                None => None,
            },
            None => None,
        }
    }

    /// Deletes a key from the forward `persistent` segment; a no-op when
    /// absent.
    pub fn del_persistent(&mut self, key: &str) -> (r: Option<String>)
        ensures
            final(self)@ == fwd_del(old(self)@, kv::Segment::Persistent, key@),
            match r {
                Some(v) => kv::seg_entries(forward_view(old(self)@).persistent).dom().contains(
                    key@,
                ) && v@ == kv::seg_entries(forward_view(old(self)@).persistent)[key@],
                None => !kv::seg_entries(forward_view(old(self)@).persistent).dom().contains(key@),
            },
    {
        match &mut self.forward_node {
            Some(n) => n.del_persistent(key),
            None => None,
        }
    }

    /// Deletes a key from the forward `transient` segment.
    pub fn del_transient(&mut self, key: &str) -> (r: Option<String>)
        ensures
            final(self)@ == fwd_del(old(self)@, kv::Segment::Transient, key@),
            match r {
                Some(v) => kv::seg_entries(forward_view(old(self)@).transient).dom().contains(
                    key@,
                ) && v@ == kv::seg_entries(forward_view(old(self)@).transient)[key@],
                None => !kv::seg_entries(forward_view(old(self)@).transient).dom().contains(key@),
            },
    {
        match &mut self.forward_node {
            Some(n) => n.del_transient(key),
            None => None,
        }
    }

    /// Deletes a key from the forward node's `stale` segment.
    pub fn del_upstream(&mut self, key: &str) -> (r: Option<String>)
        ensures
            final(self)@ == fwd_del(old(self)@, kv::Segment::Stale, key@),
            match r {
                Some(v) => kv::seg_entries(forward_view(old(self)@).stale).dom().contains(key@)
                    && v@ == kv::seg_entries(forward_view(old(self)@).stale)[key@],
                None => !kv::seg_entries(forward_view(old(self)@).stale).dom().contains(key@),
            },
    {
        match &mut self.forward_node {
            Some(n) => n.del_stale(key),
            None => None,
        }
    }

    /// The whole forward `persistent` segment; `None` while the node or
    /// the segment was never written.
    pub fn get_all_persistents(&self) -> (r: Option<&StrMap>)
        ensures
            match r {
                Some(m) => forward_view(self@).persistent == Some(m@),
                None => forward_view(self@).persistent is None,
            },
    {
        match self.forward_node.as_ref() {
            Some(n) => n.get_all_persistents(),
            None => None,
        }
    }

    /// The whole forward `transient` segment.
    pub fn get_all_transients(&self) -> (r: Option<&StrMap>)
        ensures
            match r {
                Some(m) => forward_view(self@).transient == Some(m@),
                None => forward_view(self@).transient is None,
            },
    {
        match self.forward_node.as_ref() {
            Some(n) => n.get_all_transients(),
            None => None,
        }
    }

    /// The whole forward `stale` segment, which carries upstream data.
    pub fn get_all_upstreams(&self) -> (r: Option<&StrMap>)
        ensures
            match r {
                Some(m) => forward_view(self@).stale == Some(m@),
                None => forward_view(self@).stale is None,
            },
    {
        match self.forward_node.as_ref() {
            Some(n) => n.get_all_stales(),
            None => None,
        }
    }

    /// Stores a pair in the backward `transient` segment.
    pub fn set_backward_transient(&mut self, key: String, value: String)
        ensures
            final(self)@ == bwd_set(old(self)@, kv::Segment::Transient, key@, value@),
    {
        self.ensure_backward_node();
        match &mut self.backward_node {
            Some(n) => n.set_transient(key, value),
            None => {
                proof {
                    assert(false);
                }
            }
        }
    }

    /// Stores a pair in the backward node's `stale` segment, which
    /// carries downstream data.
    pub fn set_backward_downstream(&mut self, key: String, value: String)
        ensures
            final(self)@ == bwd_set(old(self)@, kv::Segment::Stale, key@, value@),
    {
        self.ensure_backward_node();
        match &mut self.backward_node {
            Some(n) => n.set_stale(key, value),
            None => {
                proof {
                    assert(false);
                }
            }
        }
    }

    /// Looks a key up in the backward `transient` segment.
    pub fn get_backward_transient(&self, key: &str) -> (r: Option<String>)
        ensures
            match r {
                Some(v) => kv::seg_entries(backward_view(self@).transient).dom().contains(key@)
                    && v@ == kv::seg_entries(backward_view(self@).transient)[key@],
                None => !kv::seg_entries(backward_view(self@).transient).dom().contains(key@),
            },
    {
        match self.backward_node.as_ref() {
            Some(n) => match n.get_transient(key) {
                Some(v) => Some(str_to_owned(v.as_str())),
                None => None,
            },
            None => None,
        }
    }

    /// Looks a key up in the backward node's `stale` segment.
    pub fn get_backward_downstream(&self, key: &str) -> (r: Option<String>)
        ensures
            match r {
                Some(v) => kv::seg_entries(backward_view(self@).stale).dom().contains(key@) && v@
                    == kv::seg_entries(backward_view(self@).stale)[key@],
                None => !kv::seg_entries(backward_view(self@).stale).dom().contains(key@),
            },
    {
        match self.backward_node.as_ref() {
            Some(n) => match n.get_stale(key) {
                Some(v) => Some(str_to_owned(v.as_str())),
                None => None,
            },
            None => None,
        }
    }

    /// Deletes a key from the backward `transient` segment.
    pub fn del_backward_transient(&mut self, key: &str) -> (r: Option<String>)
        ensures
            final(self)@ == bwd_del(old(self)@, kv::Segment::Transient, key@),
            match r {
                Some(v) => kv::seg_entries(backward_view(old(self)@).transient).dom().contains(
                    key@,
                ) && v@ == kv::seg_entries(backward_view(old(self)@).transient)[key@],
                None => !kv::seg_entries(backward_view(old(self)@).transient).dom().contains(key@),
            },
    {
        match &mut self.backward_node {
            Some(n) => n.del_transient(key),
            None => None,
        }
    }

    /// Deletes a key from the backward node's `stale` segment.
    pub fn del_backward_downstream(&mut self, key: &str) -> (r: Option<String>)
        ensures
            final(self)@ == bwd_del(old(self)@, kv::Segment::Stale, key@),
            match r {
                Some(v) => kv::seg_entries(backward_view(old(self)@).stale).dom().contains(key@)
                    && v@ == kv::seg_entries(backward_view(old(self)@).stale)[key@],
                None => !kv::seg_entries(backward_view(old(self)@).stale).dom().contains(key@),
            },
    {
        match &mut self.backward_node {
            Some(n) => n.del_stale(key),
            None => None,
        }
    }

    /// The whole backward `transient` segment.
    pub fn get_all_backward_transients(&self) -> (r: Option<&StrMap>)
        ensures
            match r {
                Some(m) => backward_view(self@).transient == Some(m@),
                None => backward_view(self@).transient is None,
            },
    {
        match self.backward_node.as_ref() {
            Some(n) => n.get_all_transients(),
            None => None,
        }
    }

    /// The whole backward `stale` segment, which carries downstream data.
    pub fn get_all_backward_downstreams(&self) -> (r: Option<&StrMap>)
        ensures
            match r {
                Some(m) => backward_view(self@).stale == Some(m@),
                None => backward_view(self@).stale is None,
            },
    {
        match self.backward_node.as_ref() {
            Some(n) => n.get_all_stales(),
            None => None,
        }
    }
}

impl MetaInfo {
    /// Strips the wire-style persistent prefix from the key and stores
    /// the pair in the forward `persistent` segment; writes nothing when
    /// the prefix is missing.
    pub fn strip_rpc_prefix_and_set_persistent(&mut self, key: &str, value: String)
        ensures
            (convert::remove_prefix_rpc("RPC_PERSIST_"@, key@) matches Some(k) ==> final(self)@
                == fwd_set(old(self)@, kv::Segment::Persistent, k, value@)),
            convert::remove_prefix_rpc("RPC_PERSIST_"@, key@) is None ==> final(self)@ == old(
                self,
            )@,
    {
        match convert::RpcConverter.remove_persistent_prefix(key) {
            Some(k) => self.set_persistent(k, value),
            None => {}
        }
    }

    /// Strips the wire-style transient prefix and stores the pair in the
    /// forward node's `stale` segment, where upstream data lives.
    pub fn strip_rpc_prefix_and_set_upstream(&mut self, key: &str, value: String)
        ensures
            (convert::remove_prefix_rpc("RPC_TRANSIT_"@, key@) matches Some(k) ==> final(self)@
                == fwd_set(old(self)@, kv::Segment::Stale, k, value@)),
            convert::remove_prefix_rpc("RPC_TRANSIT_"@, key@) is None ==> final(self)@ == old(
                self,
            )@,
    {
        match convert::RpcConverter.remove_transient_prefix(key) {
            Some(k) => self.set_upstream(k, value),
            None => {}
        }
    }

    /// Strips the transport-style persistent prefix, translating the key
    /// back to upper-snake, and stores the pair in the forward
    /// `persistent` segment.
    pub fn strip_http_prefix_and_set_persistent(&mut self, key: &str, value: String)
        ensures
            (convert::remove_prefix_http("rpc-persist-"@, key@) matches Some(k) ==> final(self)@
                == fwd_set(old(self)@, kv::Segment::Persistent, k, value@)),
            convert::remove_prefix_http("rpc-persist-"@, key@) is None ==> final(self)@ == old(
                self,
            )@,
    {
        match convert::HttpConverter.remove_persistent_prefix(key) {
            Some(k) => self.set_persistent(k, value),
            None => {}
        }
    }

    /// Strips the transport-style transient prefix and stores the pair
    /// in the forward node's `stale` segment.
    pub fn strip_http_prefix_and_set_upstream(&mut self, key: &str, value: String)
        ensures
            (convert::remove_prefix_http("rpc-transit-"@, key@) matches Some(k) ==> final(self)@
                == fwd_set(old(self)@, kv::Segment::Stale, k, value@)),
            convert::remove_prefix_http("rpc-transit-"@, key@) is None ==> final(self)@ == old(
                self,
            )@,
    {
        match convert::HttpConverter.remove_transient_prefix(key) {
            Some(k) => self.set_upstream(k, value),
            None => {}
        }
    }

    /// Strips the wire-style backward prefix and stores the pair in the
    /// backward node's `stale` segment, where downstream data lives.
    pub fn strip_rpc_prefix_and_set_backward_downstream(&mut self, key: &str, value: String)
        ensures
            (convert::remove_prefix_rpc("RPC_BACKWARD_"@, key@) matches Some(k) ==> final(self)@
                == bwd_set(old(self)@, kv::Segment::Stale, k, value@)),
            convert::remove_prefix_rpc("RPC_BACKWARD_"@, key@) is None ==> final(self)@ == old(
                self,
            )@,
    {
        match convert::RpcConverter.remove_backward_prefix(key) {
            Some(k) => self.set_backward_downstream(k, value),
            None => {}
        }
    }

    /// Strips the transport-style backward prefix and stores the pair in
    /// the backward node's `stale` segment.
    pub fn strip_http_prefix_and_set_backward_downstream(&mut self, key: &str, value: String)
        ensures
            (convert::remove_prefix_http("rpc-backward-"@, key@) matches Some(k) ==> final(self)@
                == bwd_set(old(self)@, kv::Segment::Stale, k, value@)),
            convert::remove_prefix_http("rpc-backward-"@, key@) is None ==> final(self)@ == old(
                self,
            )@,
    {
        match convert::HttpConverter.remove_backward_prefix(key) {
            Some(k) => self.set_backward_downstream(k, value),
            None => {}
        }
    }
}

/// How one segment's export relates `m` (the mapping built so far) to
/// `base` (the mapping before this segment was exported) and `src` (the
/// segment): every source key appears under its prefixed form, every
/// other entry of `base` is kept unchanged, nothing else appears, and
/// where the style keeps the source keys apart the exported values are
/// exact.
pub open spec fn is_prefixed_export(
    m: Map<Seq<char>, Seq<char>>,
    base: Map<Seq<char>, Seq<char>>,
    src: Map<Seq<char>, Seq<char>>,
    style: convert::PrefixStyle,
    kind: convert::PrefixKind,
) -> bool {
    &&& forall|k: Seq<char>|
        src.dom().contains(k) ==> m.dom().contains(
            #[trigger] convert::add_key_spec(style, kind, k),
        )
    &&& forall|pk: Seq<char>| base.dom().contains(pk) ==> #[trigger] m.dom().contains(pk)
    &&& forall|pk: Seq<char>|
        #[trigger] m.dom().contains(pk) ==> base.dom().contains(pk) || (exists|k: Seq<char>|
            #[trigger] src.dom().contains(k) && pk == convert::add_key_spec(style, kind, k))
    &&& forall|pk: Seq<char>|
        #[trigger] m.dom().contains(pk) && !(exists|k: Seq<char>|
            #[trigger] src.dom().contains(k) && pk == convert::add_key_spec(style, kind, k))
            ==> base.dom().contains(pk) && m[pk] == base[pk]
    &&& forall|pk: Seq<char>|
        #[trigger] m.dom().contains(pk) && (exists|k: Seq<char>|
            #[trigger] src.dom().contains(k) && pk == convert::add_key_spec(style, kind, k))
            ==> exists|k: Seq<char>|
            #[trigger] src.dom().contains(k) && pk == convert::add_key_spec(style, kind, k)
                && m[pk] == src[k]
    &&& convert::style_injective_on(style, src.dom()) ==> forall|k: Seq<char>|
        src.dom().contains(k) ==> m[#[trigger] convert::add_key_spec(style, kind, k)] == src[k]
}

/// Exports one segment into `out`: every entry is re-inserted under its
/// prefixed key.
fn export_segment_into(
    out: &mut StrMap,
    seg: &StrMap,
    style: convert::PrefixStyle,
    kind: convert::PrefixKind,
)
    ensures
        is_prefixed_export(final(out)@, old(out)@, seg@, style, kind),
{
    let ghost ks = seg.key_seq();
    let n = seg.entry_count();
    let mut i: usize = 0;
    while i < n
        invariant
            n == ks.len(),
            0 <= i <= n,
            ks == seg.key_seq(),
            n == seg@.dom().len(),
            forall|j: int| 0 <= j < ks.len() ==> seg@.dom().contains(#[trigger] ks[j]),
            forall|j1: int, j2: int| 0 <= j1 < j2 < ks.len() ==> ks[j1] != ks[j2],
            forall|k: Seq<char>| seg@.dom().contains(k) ==> exists|j: int|
                0 <= j < ks.len() && #[trigger] ks[j] == k,
            forall|j: int| 0 <= j < i ==> out@.dom().contains(#[trigger] convert::add_key_spec(style, kind, ks[j])),
            forall|pk: Seq<char>| old(out)@.dom().contains(pk) ==> #[trigger] out@.dom().contains(
                pk,
            ),
            forall|pk: Seq<char>| #[trigger] out@.dom().contains(pk) ==> old(out)@.dom().contains(
                pk,
            ) || (exists|j: int| 0 <= j < i && pk == #[trigger] convert::add_key_spec(style, kind, ks[j])),
            forall|pk: Seq<char>|
                #[trigger] out@.dom().contains(pk) && !(exists|j: int|
                    0 <= j < i && pk == #[trigger] convert::add_key_spec(style, kind, ks[j])) ==> old(out)@.dom().contains(pk)
                    && out@[pk] == old(out)@[pk],
            forall|pk: Seq<char>|
                #[trigger] out@.dom().contains(pk) && (exists|j: int|
                    0 <= j < i && pk == #[trigger] convert::add_key_spec(style, kind, ks[j])) ==> exists|j: int|
                    0 <= j < i && pk == #[trigger] convert::add_key_spec(style, kind, ks[j]) && out@[pk] == seg@[ks[j]],
            convert::style_injective_on(style, seg@.dom()) ==> forall|j: int|
                0 <= j < i ==> out@[#[trigger] convert::add_key_spec(style, kind, ks[j])] == seg@[ks[j]],
        decreases n - i,
    {
        let kv_pair = seg.entry_at(i);
        let pk = convert::add_prefixed_key(style, kind, kv_pair.0.as_str());
        let v = str_to_owned(kv_pair.1.as_str());
        let ghost pre = out@;
        out.set(pk, v);
        proof {
            assert(out@ =~= pre.insert(convert::add_key_spec(style, kind, ks[i as int]), seg@[ks[i as int]]));
            if convert::style_injective_on(style, seg@.dom()) {
                assert forall|j: int| 0 <= j < i + 1 implies out@[#[trigger] convert::add_key_spec(style, kind, ks[j])]
                    == seg@[ks[j]] by {
                    if j < i && convert::add_key_spec(style, kind, ks[j]) == convert::add_key_spec(style, kind, ks[i as int]) {
                        convert::lemma_style_injective_apply(
                            style,
                            kind,
                            seg@.dom(),
                            ks[j],
                            ks[i as int],
                        );
                    }
                }
            }
        }
        i += 1;
    }
    proof {
        assert forall|k: Seq<char>| seg@.dom().contains(k) implies out@.dom().contains(
            #[trigger] convert::add_key_spec(style, kind, k),
        ) by {
            let j = choose|j: int| 0 <= j < ks.len() && #[trigger] ks[j] == k;
            assert(out@.dom().contains(convert::add_key_spec(style, kind, ks[j])));
        }
        if convert::style_injective_on(style, seg@.dom()) {
            assert forall|k: Seq<char>| seg@.dom().contains(k) implies out@[
                #[trigger] convert::add_key_spec(style, kind, k)
            ] == seg@[k] by {
                let j = choose|j: int| 0 <= j < ks.len() && #[trigger] ks[j] == k;
                assert(out@[convert::add_key_spec(style, kind, ks[j])] == seg@[ks[j]]);
            }
        }
    }
}

/// How a forward bulk export `m` relates to the forward node's
/// `persistent` entries `p` and `transient` entries `t`: every entry
/// appears under its prefixed key, every exported entry traces back to a
/// source entry, and where the style keeps a segment's keys apart that
/// segment's exported values are exact. The two prefixes never collide,
/// so the segments cannot overwrite each other.
pub open spec fn is_forward_export(
    m: Map<Seq<char>, Seq<char>>,
    p: Map<Seq<char>, Seq<char>>,
    t: Map<Seq<char>, Seq<char>>,
    style: convert::PrefixStyle,
) -> bool {
    &&& forall|k: Seq<char>|
        p.dom().contains(k) ==> m.dom().contains(
            #[trigger] convert::add_key_spec(style, convert::PrefixKind::Persistent, k),
        )
    &&& forall|k: Seq<char>|
        t.dom().contains(k) ==> m.dom().contains(
            #[trigger] convert::add_key_spec(style, convert::PrefixKind::Transient, k),
        )
    &&& forall|pk: Seq<char>|
        #[trigger] m.dom().contains(pk) ==> (exists|k: Seq<char>|
            #[trigger] p.dom().contains(k) && pk == convert::add_key_spec(
                style,
                convert::PrefixKind::Persistent,
                k,
            ) && m[pk] == p[k]) || (exists|k: Seq<char>|
            #[trigger] t.dom().contains(k) && pk == convert::add_key_spec(
                style,
                convert::PrefixKind::Transient,
                k,
            ) && m[pk] == t[k])
    &&& convert::style_injective_on(style, p.dom()) ==> forall|k: Seq<char>|
        p.dom().contains(k) ==> m[#[trigger] convert::add_key_spec(
            style,
            convert::PrefixKind::Persistent,
            k,
        )] == p[k]
    &&& convert::style_injective_on(style, t.dom()) ==> forall|k: Seq<char>|
        t.dom().contains(k) ==> m[#[trigger] convert::add_key_spec(
            style,
            convert::PrefixKind::Transient,
            k,
        )] == t[k]
}

/// How a backward bulk export `m` relates to the backward node's
/// `transient` entries `t`.
pub open spec fn is_transient_export(
    m: Map<Seq<char>, Seq<char>>,
    t: Map<Seq<char>, Seq<char>>,
    style: convert::PrefixStyle,
) -> bool {
    &&& forall|k: Seq<char>|
        t.dom().contains(k) ==> m.dom().contains(
            #[trigger] convert::add_key_spec(style, convert::PrefixKind::Transient, k),
        )
    &&& forall|pk: Seq<char>|
        #[trigger] m.dom().contains(pk) ==> exists|k: Seq<char>|
            #[trigger] t.dom().contains(k) && pk == convert::add_key_spec(
                style,
                convert::PrefixKind::Transient,
                k,
            ) && m[pk] == t[k]
    &&& convert::style_injective_on(style, t.dom()) ==> forall|k: Seq<char>|
        t.dom().contains(k) ==> m[#[trigger] convert::add_key_spec(
            style,
            convert::PrefixKind::Transient,
            k,
        )] == t[k]
}

impl MetaInfo {
    /// Merges the forward node's `persistent` and `transient` segments
    /// into one new mapping, re-adding the style's prefixes; `None` when
    /// there is nothing to export.
    fn export_forward(&self, style: convert::PrefixStyle) -> (r: Option<StrMap>)
        ensures
            (r is Some <==> self@.forward is Some && kv::seg_entries(
                forward_view(self@).persistent,
            ).dom().len() + kv::seg_entries(forward_view(self@).transient).dom().len() > 0),
            (r matches Some(m) ==> is_forward_export(
                m@,
                kv::seg_entries(forward_view(self@).persistent),
                kv::seg_entries(forward_view(self@).transient),
                style,
            )),
    {
        let ghost p = kv::seg_entries(forward_view(self@).persistent);
        let ghost t = kv::seg_entries(forward_view(self@).transient);
        match self.forward_node.as_ref() {
            Some(node) => {
                let p_len = match node.get_all_persistents() {
                    Some(m) => m.len(),
                    None => 0,
                };
                let t_len = match node.get_all_transients() {
                    Some(m) => m.len(),
                    None => 0,
                };
                if p_len == 0 && t_len == 0 {
                    proof {
                        vstd::set_lib::lemma_set_empty_equivalency_len(p.dom());
                        vstd::set_lib::lemma_set_empty_equivalency_len(t.dom());
                    }
                    return None;
                }
                let mut out = StrMap::with_capacity(p_len);
                let ghost empty_base = out@;
                match node.get_all_persistents() {
                    Some(pm) => export_segment_into(
                        &mut out,
                        pm,
                        style,
                        convert::PrefixKind::Persistent,
                    ),
                    None => {}
                }
                let ghost mid = out@;
                match node.get_all_transients() {
                    Some(tm) => export_segment_into(
                        &mut out,
                        tm,
                        style,
                        convert::PrefixKind::Transient,
                    ),
                    None => {}
                }
                proof {
                    lemma_compose_forward_export(empty_base, mid, out@, p, t, style);
                }
                Some(out)
            }
            None => None,
        }
    }

    /// The forward node's `persistent` and `transient` entries as one
    /// mapping with the upper-snake wire prefixes; `None` when both
    /// segments are empty or were never written.
    pub fn get_all_persistents_and_transients_with_rpc_prefix(&self) -> (r: Option<StrMap>)
        ensures
            (r is Some <==> self@.forward is Some && kv::seg_entries(
                forward_view(self@).persistent,
            ).dom().len() + kv::seg_entries(forward_view(self@).transient).dom().len() > 0),
            (r matches Some(m) ==> is_forward_export(
                m@,
                kv::seg_entries(forward_view(self@).persistent),
                kv::seg_entries(forward_view(self@).transient),
                convert::PrefixStyle::Rpc,
            )),
    {
        self.export_forward(convert::PrefixStyle::Rpc)
    }

    /// The forward node's `persistent` and `transient` entries as one
    /// mapping with the lower-kebab transport prefixes, the keys
    /// translated to that style; `None` when there is nothing to export.
    pub fn get_all_persistents_and_transients_with_http_prefix(&self) -> (r: Option<StrMap>)
        ensures
            (r is Some <==> self@.forward is Some && kv::seg_entries(
                forward_view(self@).persistent,
            ).dom().len() + kv::seg_entries(forward_view(self@).transient).dom().len() > 0),
            (r matches Some(m) ==> is_forward_export(
                m@,
                kv::seg_entries(forward_view(self@).persistent),
                kv::seg_entries(forward_view(self@).transient),
                convert::PrefixStyle::Http,
            )),
    {
        self.export_forward(convert::PrefixStyle::Http)
    }

    /// The backward node's `transient` entries as one new mapping with
    /// the style's transient prefix; `None` when there is nothing to
    /// export.
    fn export_backward_transients(&self, style: convert::PrefixStyle) -> (r: Option<StrMap>)
        ensures
            (r is Some <==> self@.backward is Some && backward_view(self@).transient is Some
                && kv::seg_entries(backward_view(self@).transient).dom().len() > 0),
            (r matches Some(m) ==> is_transient_export(
                m@,
                kv::seg_entries(backward_view(self@).transient),
                style,
            )),
    {
        let ghost t = kv::seg_entries(backward_view(self@).transient);
        match self.backward_node.as_ref() {
            Some(node) => {
                match node.get_all_transients() {
                    Some(tm) => {
                        let t_len = tm.len();
                        if t_len == 0 {
                            proof {
                                vstd::set_lib::lemma_set_empty_equivalency_len(t.dom());
                            }
                            return None;
                        }
                        let mut out = StrMap::with_capacity(t_len);
                        let ghost empty_base = out@;
                        export_segment_into(&mut out, tm, style, convert::PrefixKind::Transient);
                        proof {
                            lemma_compose_transient_export(empty_base, out@, t, style);
                        }
                        Some(out)
                    }
                    None => None,
                }
            }
            None => None,
        }
    }

    /// The backward node's `transient` entries with the upper-snake wire
    /// prefix.
    pub fn get_all_backward_transients_with_rpc_prefix(&self) -> (r: Option<StrMap>)
        ensures
            (r is Some <==> self@.backward is Some && backward_view(self@).transient is Some
                && kv::seg_entries(backward_view(self@).transient).dom().len() > 0),
            (r matches Some(m) ==> is_transient_export(
                m@,
                kv::seg_entries(backward_view(self@).transient),
                convert::PrefixStyle::Rpc,
            )),
    {
        self.export_backward_transients(convert::PrefixStyle::Rpc)
    }

    /// The backward node's `transient` entries with the lower-kebab
    /// transport prefix, the keys translated to that style.
    pub fn get_all_backward_transients_with_http_prefix(&self) -> (r: Option<StrMap>)
        ensures
            (r is Some <==> self@.backward is Some && backward_view(self@).transient is Some
                && kv::seg_entries(backward_view(self@).transient).dom().len() > 0),
            (r matches Some(m) ==> is_transient_export(
                m@,
                kv::seg_entries(backward_view(self@).transient),
                convert::PrefixStyle::Http,
            )),
    {
        self.export_backward_transients(convert::PrefixStyle::Http)
    }
}

/// Exporting the persistent entries over an empty mapping and the
/// transient entries over the result yields a forward export: the two
/// prefix kinds never collide.
proof fn lemma_compose_forward_export(
    base: Map<Seq<char>, Seq<char>>,
    mid: Map<Seq<char>, Seq<char>>,
    fin: Map<Seq<char>, Seq<char>>,
    p: Map<Seq<char>, Seq<char>>,
    t: Map<Seq<char>, Seq<char>>,
    style: convert::PrefixStyle,
)
    requires
        base == Map::<Seq<char>, Seq<char>>::empty(),
        is_prefixed_export(mid, base, p, style, convert::PrefixKind::Persistent),
        is_prefixed_export(fin, mid, t, style, convert::PrefixKind::Transient),
    ensures
        is_forward_export(fin, p, t, style),
{
    assert forall|pk: Seq<char>| #[trigger] fin.dom().contains(pk) implies (exists|k: Seq<char>|
        #[trigger] p.dom().contains(k) && pk == convert::add_key_spec(
            style,
            convert::PrefixKind::Persistent,
            k,
        ) && fin[pk] == p[k]) || (exists|k: Seq<char>|
        #[trigger] t.dom().contains(k) && pk == convert::add_key_spec(
            style,
            convert::PrefixKind::Transient,
            k,
        ) && fin[pk] == t[k]) by {
        let hit_t = exists|k: Seq<char>|
            #[trigger] t.dom().contains(k) && pk == convert::add_key_spec(
                style,
                convert::PrefixKind::Transient,
                k,
            );
        if !hit_t {
            assert(mid.dom().contains(pk) && fin[pk] == mid[pk]);
        }
    }
    if convert::style_injective_on(style, p.dom()) {
        assert forall|k: Seq<char>| p.dom().contains(k) implies fin[
            #[trigger] convert::add_key_spec(style, convert::PrefixKind::Persistent, k)
        ] == p[k] by {
            let pk = convert::add_key_spec(style, convert::PrefixKind::Persistent, k);
            assert(mid.dom().contains(pk));
            assert(fin.dom().contains(pk));
            if exists|k2: Seq<char>|
                #[trigger] t.dom().contains(k2) && pk == convert::add_key_spec(
                    style,
                    convert::PrefixKind::Transient,
                    k2,
                ) {
                let k2 = choose|k2: Seq<char>|
                    #[trigger] t.dom().contains(k2) && pk == convert::add_key_spec(
                        style,
                        convert::PrefixKind::Transient,
                        k2,
                    );
                convert::lemma_kinds_disjoint(
                    style,
                    k,
                    k2,
                    convert::PrefixKind::Persistent,
                    convert::PrefixKind::Transient,
                );
                assert(false);
            }
            assert(fin[pk] == mid[pk]);
        }
    }
    if convert::style_injective_on(style, t.dom()) {
        assert forall|k: Seq<char>| t.dom().contains(k) implies fin[
            #[trigger] convert::add_key_spec(style, convert::PrefixKind::Transient, k)
        ] == t[k] by {
        }
    }
}

/// Exporting one transient segment over an empty mapping yields a
/// backward export.
proof fn lemma_compose_transient_export(
    base: Map<Seq<char>, Seq<char>>,
    fin: Map<Seq<char>, Seq<char>>,
    t: Map<Seq<char>, Seq<char>>,
    style: convert::PrefixStyle,
)
    requires
        base == Map::<Seq<char>, Seq<char>>::empty(),
        is_prefixed_export(fin, base, t, style, convert::PrefixKind::Transient),
    ensures
        is_transient_export(fin, t, style),
{
}

impl Default for MetaInfo {
    /// Same as `MetaInfo::new`: an empty root context.
    fn default() -> (r: MetaInfo)
        ensures
            r@ == empty_meta_view(),
    {
        MetaInfo::new()
    }
}

/// A typed payload just inserted is the one a lookup finds for its
/// token, in any context: the local write shadows every ancestor.
pub proof fn lemma_typed_insert_then_get(v: MetaView, key: u64, val: Value)
    ensures
        lookup_typed(with_tmap(v, Some(typed_entries(v).insert(key, val))), key) == Some(val),
{
}

/// After a local typed removal in a context without a parent, a lookup
/// for the token finds nothing.
pub proof fn lemma_typed_remove_then_get(v: MetaView, key: u64)
    requires
        v.parent is None,
    ensures
        lookup_typed(with_tmap(v, Some(typed_entries(v).remove(key))), key) is None,
{
}

/// A context built from a parent sees exactly what the parent sees, for
/// every typed token: its local stores start empty.
pub proof fn lemma_child_sees_parent(p: MetaView, key: u64)
    ensures
        lookup_typed(from_view(p), key) == lookup_typed(p, key),
{
}

/// A local typed removal only unshadows: afterwards the lookup sees
/// whatever the ancestor chain holds for the token.
pub proof fn lemma_typed_remove_unshadows(v: MetaView, key: u64)
    ensures
        lookup_typed(with_tmap(v, Some(typed_entries(v).remove(key))), key) == (match v.parent {
            Some(p) => lookup_typed(*p, key),
            None => None,
        }),
{
}

/// A string payload just inserted is the one a lookup finds for its
/// token.
pub proof fn lemma_faststr_insert_then_get(v: MetaView, key: u64, val: Seq<char>)
    ensures
        lookup_faststr(with_fmap(v, Some(faststr_entries(v).insert(key, val))), key) == Some(val),
{
}

/// A string key/value pair just inserted is the one a lookup finds for
/// its key.
pub proof fn lemma_string_insert_then_get(v: MetaView, key: Seq<char>, val: Seq<char>)
    ensures
        lookup_string(with_smap(v, Some(string_entries(v).insert(key, val))), key) == Some(val),
{
}

/// A context built from a parent sees exactly what the parent sees, for
/// every string-payload token.
pub proof fn lemma_child_sees_parent_faststr(p: MetaView, key: u64)
    ensures
        lookup_faststr(from_view(p), key) == lookup_faststr(p, key),
{
}

/// A context built from a parent sees exactly what the parent sees, for
/// every string key.
pub proof fn lemma_child_sees_parent_string(p: MetaView, key: Seq<char>)
    ensures
        lookup_string(from_view(p), key) == lookup_string(p, key),
{
}

/// A child made by `derive`'s promotion sees exactly what the original
/// saw, for every typed token: promotion moves the local stores one
/// level up without changing any lookup.
pub proof fn lemma_derive_preserves_typed(v: MetaView, key: u64)
    ensures
        lookup_typed(derived_child_view(v), key) == lookup_typed(v, key),
{
    let child = derived_child_view(v);
    let prom = promoted_view(v);
    assert(lookup_typed(child, key) == lookup_typed(prom, key));
    assert(lookup_typed(prom, key) == lookup_typed(v, key));
}

/// A child made by `derive`'s promotion sees exactly what the original
/// saw, for every string-payload token.
pub proof fn lemma_derive_preserves_faststr(v: MetaView, key: u64)
    ensures
        lookup_faststr(derived_child_view(v), key) == lookup_faststr(v, key),
{
    let child = derived_child_view(v);
    let prom = promoted_view(v);
    assert(lookup_faststr(child, key) == lookup_faststr(prom, key));
    assert(lookup_faststr(prom, key) == lookup_faststr(v, key));
}

/// A child made by `derive`'s promotion sees exactly what the original
/// saw, for every string key.
pub proof fn lemma_derive_preserves_string(v: MetaView, key: Seq<char>)
    ensures
        lookup_string(derived_child_view(v), key) == lookup_string(v, key),
{
    let child = derived_child_view(v);
    let prom = promoted_view(v);
    assert(lookup_string(child, key) == lookup_string(prom, key));
    assert(lookup_string(prom, key) == lookup_string(v, key));
}

/// Merging another context: in the forward `persistent` segment the
/// incoming value wins for an overlapping key, while a key present on
/// one side only keeps that side's value.
pub proof fn lemma_extend_persistent(v: MetaView, o: MetaView, k: Seq<char>)
    ensures
        (kv::seg_entries(forward_view(o).persistent).dom().contains(k) ==> kv::seg_entries(
            forward_view(extended_view(v, o)).persistent,
        ).dom().contains(k) && kv::seg_entries(forward_view(extended_view(v, o)).persistent)[k]
            == kv::seg_entries(forward_view(o).persistent)[k]),
        (!kv::seg_entries(forward_view(o).persistent).dom().contains(k) && kv::seg_entries(
            forward_view(v).persistent,
        ).dom().contains(k) ==> kv::seg_entries(
            forward_view(extended_view(v, o)).persistent,
        ).dom().contains(k) && kv::seg_entries(forward_view(extended_view(v, o)).persistent)[k]
            == kv::seg_entries(forward_view(v).persistent)[k]),
{
}

/// The default number of entries a local store reserves room for when it
/// is first written.
const DEFAULT_MAP_SIZE: usize = 10;

/// Fixed upper-snake wire prefix for persistent data; peers must agree
/// on it byte for byte.
pub const RPC_PREFIX_PERSISTENT: &'static str = "RPC_PERSIST_";

/// Fixed upper-snake wire prefix for transient data.
pub const RPC_PREFIX_TRANSIENT: &'static str = "RPC_TRANSIT_";

/// Fixed upper-snake wire prefix for backward data.
pub const RPC_PREFIX_BACKWARD: &'static str = "RPC_BACKWARD_";

/// Fixed lower-kebab transport prefix for persistent data.
pub const HTTP_PREFIX_PERSISTENT: &'static str = "rpc-persist-";

/// Fixed lower-kebab transport prefix for transient data.
pub const HTTP_PREFIX_TRANSIENT: &'static str = "rpc-transit-";

/// Fixed lower-kebab transport prefix for backward data.
pub const HTTP_PREFIX_BACKWARD: &'static str = "rpc-backward-";

} // verus!
