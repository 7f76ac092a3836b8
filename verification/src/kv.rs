//! The per-direction key/value node: three independent, lazily-allocated
//! string-to-string mappings. `persistent` survives the whole call chain,
//! `transient` survives one hop, and `stale` carries data flowing against
//! the node's direction (upstream in a forward node, downstream in a
//! backward node).

use vstd::prelude::*;

use crate::str_map::StrMap;

verus! {

/// The abstract state of one node: each segment is `None` while never
/// written (unallocated) and `Some` of its mapping afterwards.
pub ghost struct NodeView {
    pub persistent: Option<Map<Seq<char>, Seq<char>>>,
    pub transient: Option<Map<Seq<char>, Seq<char>>>,
    pub stale: Option<Map<Seq<char>, Seq<char>>>,
}

/// An unallocated segment and an empty one hold the same entries: none.
pub open spec fn seg_entries(s: Option<Map<Seq<char>, Seq<char>>>) -> Map<Seq<char>, Seq<char>> {
    match s {
        Some(m) => m,
        None => Map::empty(),
    }
}

/// A segment written through `set`: allocated if it was not, with the new
/// pair inserted.
pub open spec fn seg_after_set(
    s: Option<Map<Seq<char>, Seq<char>>>,
    key: Seq<char>,
    value: Seq<char>,
) -> Option<Map<Seq<char>, Seq<char>>> {
    Some(seg_entries(s).insert(key, value))
}

/// A segment with one key deleted; deletion never allocates.
pub open spec fn seg_after_del(s: Option<Map<Seq<char>, Seq<char>>>, key: Seq<char>) -> Option<
    Map<Seq<char>, Seq<char>>,
> {
    match s {
        Some(m) => Some(m.remove(key)),
        None => None,
    }
}

/// A segment merged with the same segment of another node: adopted
/// wholesale if absent locally, merged key by key otherwise, with the
/// incoming side winning on conflicts.
pub open spec fn seg_after_extend(
    s: Option<Map<Seq<char>, Seq<char>>>,
    other: Option<Map<Seq<char>, Seq<char>>>,
) -> Option<Map<Seq<char>, Seq<char>>> {
    match (s, other) {
        (x, None) => x,
        (None, Some(o)) => Some(o),
        (Some(m), Some(o)) => Some(m.union_prefer_right(o)),
    }
}

/// The view with its `persistent` segment replaced.
pub open spec fn with_persistent(v: NodeView, s: Option<Map<Seq<char>, Seq<char>>>) -> NodeView {
    NodeView { persistent: s, ..v }
}

/// The view with its `transient` segment replaced.
pub open spec fn with_transient(v: NodeView, s: Option<Map<Seq<char>, Seq<char>>>) -> NodeView {
    NodeView { transient: s, ..v }
}

/// The view with its `stale` segment replaced.
pub open spec fn with_stale(v: NodeView, s: Option<Map<Seq<char>, Seq<char>>>) -> NodeView {
    NodeView { stale: s, ..v }
}

/// Selects one of a node's three segments.
pub ghost enum Segment {
    Persistent,
    Transient,
    Stale,
}

/// The selected segment of a node.
pub open spec fn node_seg(n: NodeView, s: Segment) -> Option<Map<Seq<char>, Seq<char>>> {
    match s {
        Segment::Persistent => n.persistent,
        Segment::Transient => n.transient,
        Segment::Stale => n.stale,
    }
}

/// The node with the selected segment replaced.
pub open spec fn node_with_seg(n: NodeView, s: Segment, m: Option<Map<Seq<char>, Seq<char>>>) -> NodeView {
    match s {
        Segment::Persistent => with_persistent(n, m),
        Segment::Transient => with_transient(n, m),
        Segment::Stale => with_stale(n, m),
    }
}

/// One segment emptied in place: an allocated mapping keeps its
/// allocation, an unallocated one stays unallocated.
pub open spec fn seg_cleared(s: Option<Map<Seq<char>, Seq<char>>>) -> Option<
    Map<Seq<char>, Seq<char>>,
> {
    match s {
        Some(m) => Some(Map::empty()),
        None => None,
    }
}

/// The view of a node whose allocated segments were emptied in place.
pub open spec fn node_cleared(v: NodeView) -> NodeView {
    NodeView {
        persistent: seg_cleared(v.persistent),
        transient: seg_cleared(v.transient),
        stale: seg_cleared(v.stale),
    }
}

/// The view of a node after another node was merged into it.
pub open spec fn node_after_extend(v: NodeView, other: NodeView) -> NodeView {
    NodeView {
        persistent: seg_after_extend(v.persistent, other.persistent),
        transient: seg_after_extend(v.transient, other.transient),
        stale: seg_after_extend(v.stale, other.stale),
    }
}

/// The allocation-level view of one segment slot.
pub(crate) open spec fn slot_view(s: Option<StrMap>) -> Option<Map<Seq<char>, Seq<char>>> {
    match s {
        Some(m) => Some(m@),
        None => None,
    }
}

fn seg_set(slot: &mut Option<StrMap>, key: String, value: String)
    ensures
        slot_view(*final(slot)) == seg_after_set(slot_view(*old(slot)), key@, value@),
{
    if slot.is_none() {
        *slot = Some(StrMap::with_capacity(DEFAULT_CAPACITY));
    }
    match slot {
        Some(m) => {
            m.set(key, value);
            proof {
                assert(Map::<Seq<char>, Seq<char>>::empty().insert(key@, value@) =~= seg_entries(
                    None,
                ).insert(key@, value@));
            }
        }
        None => {
            proof {
                assert(false);
            }
        }
    }
}

fn seg_get<'a>(slot: &'a Option<StrMap>, key: &str) -> (r: Option<&'a String>)
    ensures
        match r {
            Some(v) => seg_entries(slot_view(*slot)).dom().contains(key@) && v@ == seg_entries(
                slot_view(*slot),
            )[key@],
            None => !seg_entries(slot_view(*slot)).dom().contains(key@),
        },
{
    match slot {
        Some(m) => m.get(key),
        None => None,
    }
}

fn seg_del(slot: &mut Option<StrMap>, key: &str) -> (r: Option<String>)
    ensures
        slot_view(*final(slot)) == seg_after_del(slot_view(*old(slot)), key@),
        match r {
            Some(v) => seg_entries(slot_view(*old(slot))).dom().contains(key@) && v@
                == seg_entries(slot_view(*old(slot)))[key@],
            None => !seg_entries(slot_view(*old(slot))).dom().contains(key@),
        },
{
    match slot {
        Some(m) => m.del(key),
        None => None,
    }
}

fn seg_extend(slot: &mut Option<StrMap>, other: Option<StrMap>)
    ensures
        slot_view(*final(slot)) == seg_after_extend(slot_view(*old(slot)), slot_view(other)),
{
    match other {
        Some(o) => {
            match slot {
                Some(m) => {
                    m.extend(o);
                }
                None => {
                    *slot = Some(o);
                }
            }
        }
        None => {}
    }
}

fn seg_clone(slot: &Option<StrMap>) -> (r: Option<StrMap>)
    ensures
        slot_view(r) == slot_view(*slot),
{
    match slot {
        Some(m) => Some(m.clone()),
        None => None,
    }
}

/// The default number of entries a segment reserves room for when it is
/// first written.
pub(crate) const DEFAULT_CAPACITY: usize = 10;

/// One direction's key/value store, made of the three segments.
#[derive(Debug)]
pub struct Node {
    persistent: Option<StrMap>,
    transient: Option<StrMap>,
    stale: Option<StrMap>,
}

impl View for Node {
    type V = NodeView;

    closed spec fn view(&self) -> NodeView {
        NodeView {
            persistent: match self.persistent {
                Some(ref m) => Some(m@),
                None => None,
            },
            transient: match self.transient {
                Some(ref m) => Some(m@),
                None => None,
            },
            stale: match self.stale {
                Some(ref m) => Some(m@),
                None => None,
            },
        }
    }
}

/// The state of a node that has never been written.
pub open spec fn empty_node_view() -> NodeView {
    NodeView { persistent: None, transient: None, stale: None }
}

impl Node {
    /// Creates a node with all three segments unallocated.
    pub fn new() -> (r: Node)
        ensures
            r@ == empty_node_view(),
    {
        Node { persistent: None, transient: None, stale: None }
    }

    /// Stores a pair in the `persistent` segment, allocating it on first
    /// use.
    pub fn set_persistent(&mut self, key: String, value: String)
        ensures
            final(self)@ == with_persistent(
                old(self)@,
                seg_after_set(old(self)@.persistent, key@, value@),
            ),
    {
        seg_set(&mut self.persistent, key, value);
    }

    /// Stores a pair in the `transient` segment, allocating it on first
    /// use.
    pub fn set_transient(&mut self, key: String, value: String)
        ensures
            final(self)@ == with_transient(
                old(self)@,
                seg_after_set(old(self)@.transient, key@, value@),
            ),
    {
        seg_set(&mut self.transient, key, value);
    }

    /// Stores a pair in the `stale` segment, allocating it on first use.
    pub fn set_stale(&mut self, key: String, value: String)
        ensures
            final(self)@ == with_stale(
                old(self)@,
                seg_after_set(old(self)@.stale, key@, value@),
            ),
    {
        seg_set(&mut self.stale, key, value);
    }

    /// Looks a key up in the `persistent` segment.
    pub fn get_persistent(&self, key: &str) -> (r: Option<&String>)
        ensures
            match r {
                Some(v) => seg_entries(self@.persistent).dom().contains(key@) && v@ == seg_entries(
                    self@.persistent,
                )[key@],
                None => !seg_entries(self@.persistent).dom().contains(key@),
            },
    {
        seg_get(&self.persistent, key)
    }

    /// Looks a key up in the `transient` segment.
    pub fn get_transient(&self, key: &str) -> (r: Option<&String>)
        ensures
            match r {
                Some(v) => seg_entries(self@.transient).dom().contains(key@) && v@ == seg_entries(
                    self@.transient,
                )[key@],
                None => !seg_entries(self@.transient).dom().contains(key@),
            },
    {
        seg_get(&self.transient, key)
    }

    /// Looks a key up in the `stale` segment.
    pub fn get_stale(&self, key: &str) -> (r: Option<&String>)
        ensures
            match r {
                Some(v) => seg_entries(self@.stale).dom().contains(key@) && v@ == seg_entries(
                    self@.stale,
                )[key@],
                None => !seg_entries(self@.stale).dom().contains(key@),
            },
    {
        seg_get(&self.stale, key)
    }

    /// Deletes a key from the `persistent` segment; a no-op when absent.
    pub fn del_persistent(&mut self, key: &str) -> (r: Option<String>)
        ensures
            final(self)@ == with_persistent(
                old(self)@,
                seg_after_del(old(self)@.persistent, key@),
            ),
            match r {
                Some(v) => seg_entries(old(self)@.persistent).dom().contains(key@) && v@
                    == seg_entries(old(self)@.persistent)[key@],
                None => !seg_entries(old(self)@.persistent).dom().contains(key@),
            },
    {
        seg_del(&mut self.persistent, key)
    }

    /// Deletes a key from the `transient` segment; a no-op when absent.
    pub fn del_transient(&mut self, key: &str) -> (r: Option<String>)
        ensures
            final(self)@ == with_transient(
                old(self)@,
                seg_after_del(old(self)@.transient, key@),
            ),
            match r {
                Some(v) => seg_entries(old(self)@.transient).dom().contains(key@) && v@
                    == seg_entries(old(self)@.transient)[key@],
                None => !seg_entries(old(self)@.transient).dom().contains(key@),
            },
    {
        seg_del(&mut self.transient, key)
    }

    /// Deletes a key from the `stale` segment; a no-op when absent.
    pub fn del_stale(&mut self, key: &str) -> (r: Option<String>)
        ensures
            final(self)@ == with_stale(
                old(self)@,
                seg_after_del(old(self)@.stale, key@),
            ),
            match r {
                Some(v) => seg_entries(old(self)@.stale).dom().contains(key@) && v@ == seg_entries(
                    old(self)@.stale,
                )[key@],
                None => !seg_entries(old(self)@.stale).dom().contains(key@),
            },
    {
        seg_del(&mut self.stale, key)
    }

    /// The whole `persistent` segment; `None` while never allocated.
    pub fn get_all_persistents(&self) -> (r: Option<&StrMap>)
        ensures
            match r {
                Some(m) => self@.persistent == Some(m@),
                None => self@.persistent is None,
            },
    {
        self.persistent.as_ref()
    }

    /// The whole `transient` segment; `None` while never allocated.
    pub fn get_all_transients(&self) -> (r: Option<&StrMap>)
        ensures
            match r {
                Some(m) => self@.transient == Some(m@),
                None => self@.transient is None,
            },
    {
        self.transient.as_ref()
    }

    /// The whole `stale` segment; `None` while never allocated.
    pub fn get_all_stales(&self) -> (r: Option<&StrMap>)
        ensures
            match r {
                Some(m) => self@.stale == Some(m@),
                None => self@.stale is None,
            },
    {
        self.stale.as_ref()
    }

    /// Merges another node into this one, segment by segment; for each
    /// segment present in `other`, an absent local segment adopts it
    /// wholesale, a present one merges key by key with `other` winning.
    pub fn extend(&mut self, other: Node)
        ensures
            final(self)@ == node_after_extend(old(self)@, other@),
    {
        let Node { persistent, transient, stale } = other;
        seg_extend(&mut self.persistent, persistent);
        seg_extend(&mut self.transient, transient);
        seg_extend(&mut self.stale, stale);
    }

    /// Empties every allocated segment; allocation states are kept.
    pub fn clear(&mut self)
        ensures
            final(self)@ == node_cleared(old(self)@),
    {
        match &mut self.persistent {
            Some(m) => m.clear(),
            None => {}
        }
        match &mut self.transient {
            Some(m) => m.clear(),
            None => {}
        }
        match &mut self.stale {
            Some(m) => m.clear(),
            None => {}
        }
    }
}

impl Default for Node {
    /// Same as `Node::new`: all three segments unallocated.
    fn default() -> (r: Node)
        ensures
            r@ == empty_node_view(),
    {
        Node::new()
    }
}

impl Clone for Node {
    /// Clones segment by segment; the copy abstracts to the same state.
    fn clone(&self) -> (r: Self)
        ensures
            r@ == self@,
    {
        Node {
            persistent: seg_clone(&self.persistent),
            transient: seg_clone(&self.transient),
            stale: seg_clone(&self.stale),
        }
    }
}

} // verus!
