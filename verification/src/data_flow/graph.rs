//! The graph: a slot map of nodes and, per node, its incoming edges.

use std::collections::HashSet;

use slotmap::Key;
use vstd::prelude::*;

use super::edge::Edge;
use super::node::{slot_of, Compound, Gamma, Node, NodeId, Region, RegionEnd, RegionStart, Simple};
use vstd::std_specs::convert::{FromSpec, IntoSpec};

verus! {

broadcast use vstd::std_specs::hash::group_hash_axioms;

/// The nodes of a graph, stored in a `slotmap::SlotMap`.
#[verifier::external_body]
pub struct NodeMap {
    inner: slotmap::SlotMap<slotmap::DefaultKey, Node>,
}

/// The incoming edges of each node, stored in a `slotmap::SecondaryMap` of
/// `tinyvec::TinyVec` lists.
#[verifier::external_body]
pub struct EdgeMap {
    inner: slotmap::SecondaryMap<slotmap::DefaultKey, tinyvec::TinyVec<[Edge; 2]>>,
}

/// The nodes a node map holds, by raw handle.
pub uninterp spec fn node_entries(m: NodeMap) -> Map<u64, Node>;

/// The edge lists an edge map holds, by raw handle.
pub uninterp spec fn edge_entries(m: EdgeMap) -> Map<u64, Seq<Edge>>;

/// The node map without entries.
pub open spec fn no_nodes() -> Map<u64, Node> {
    Map::empty()
}

/// The edge map without entries.
pub open spec fn no_edges() -> Map<u64, Seq<Edge>> {
    Map::empty()
}

/// The largest number of nodes a graph accepts another node at.
pub const NODE_LIMIT: usize = 0xffff_fff0;

/// Whether `raw` is in `marked`.
pub fn holds(marked: &HashSet<u64>, raw: u64) -> (r: bool)
    ensures
        r == marked@.contains(raw),
{
    marked.contains(&raw)
}

impl NodeMap {
    /// `SlotMap::new`: a map without entries.
    #[verifier::external_body]
    pub(crate) fn new() -> (m: NodeMap)
        ensures
            node_entries(m) == no_nodes(),
    {
        NodeMap { inner: slotmap::SlotMap::new() }
    }

    /// `SlotMap::clear`: removes every entry.
    #[verifier::external_body]
    pub(crate) fn clear(&mut self)
        ensures
            node_entries(*final(self)) == no_nodes(),
    {
        self.inner.clear();
    }

    /// `SlotMap::len`: the number of entries.
    #[verifier::external_body]
    pub(crate) fn len(&self) -> (n: usize)
        ensures
            n == node_entries(*self).dom().len(),
    {
        self.inner.len()
    }

    /// `SlotMap::insert`: stores `node` under a handle that the map does not
    /// hold yet. The handle is not null, has an odd generation, and shares
    /// its slot with no other handle in the map; its slot is not slot 0,
    /// which the slot map keeps for itself. The call panics when the map
    /// has run out of slots, which needs `u32::MAX - 1` entries.
    #[verifier::external_body]
    pub(crate) fn insert(&mut self, node: Node) -> (id: NodeId)
        requires
            node_entries(*old(self)).dom().finite(),
            node_entries(*old(self)).dom().len() < NODE_LIMIT,
        ensures
            !node_entries(*old(self)).contains_key(id@),
            node_entries(*final(self)) == node_entries(*old(self)).insert(id@, node),
            slot_of(id@) != u32::MAX,
            slot_of(id@) != 0,
            forall|k: u64| #[trigger]
                node_entries(*old(self)).contains_key(k) ==> slot_of(k) != slot_of(id@),
    {
        let key = self.inner.insert(node);
        NodeId::from_raw(key.data().as_ffi())
    }

    /// `SlotMap::get`: the node stored under `id`, if there is one.
    #[verifier::external_body]
    pub(crate) fn get(&self, id: NodeId) -> (node: Option<&Node>)
        ensures
            match node {
                Some(n) => node_entries(*self).contains_key(id@) && *n == node_entries(*self)[id@],
                None => !node_entries(*self).contains_key(id@),
            },
    {
        self.inner.get(slotmap::KeyData::from_ffi(id.raw()).into())
    }

    /// `SlotMap::retain`: keeps exactly the entries whose handle is in
    /// `marked`.
    #[verifier::external_body]
    pub(crate) fn retain_marked(&mut self, marked: &HashSet<u64>)
        ensures
            node_entries(*final(self)) == node_entries(*old(self)).restrict(marked@),
    {
        self.inner.retain(|key, _| holds(marked, key.data().as_ffi()));
    }

    /// `SlotMap::keys`: every handle of the map, once each.
    #[verifier::external_body]
    pub(crate) fn keys(&self) -> (list: Vec<NodeId>)
        ensures
            list@.no_duplicates(),
            forall|i: int| 0 <= i < list.len() ==> node_entries(*self).contains_key(#[trigger] list[i]@),
            forall|k: u64|
                node_entries(*self).contains_key(k) ==> exists|i: int|
                    0 <= i < list.len() && #[trigger] list[i]@ == k,
    {
        self.inner.keys().map(|key| NodeId::from_raw(key.data().as_ffi())).collect()
    }
}

impl EdgeMap {
    /// `SecondaryMap::new`: a map without entries.
    #[verifier::external_body]
    pub(crate) fn new() -> (m: EdgeMap)
        ensures
            edge_entries(m) == no_edges(),
    {
        EdgeMap { inner: slotmap::SecondaryMap::new() }
    }

    /// `SecondaryMap::clear`: removes every entry. It does so from slot 1
    /// on; nothing is ever stored at slot 0, which `insert_empty` leaves
    /// out.
    #[verifier::external_body]
    pub(crate) fn clear(&mut self)
        ensures
            edge_entries(*final(self)) == no_edges(),
    {
        self.inner.clear();
    }

    /// `SecondaryMap::insert` of `TinyVec::new()`: stores an empty list
    /// under `id`. The secondary map ignores the null handle and lets a
    /// handle displace another one of the same slot, so both are left out;
    /// so is slot 0, which `clear` does not reach.
    #[verifier::external_body]
    pub(crate) fn insert_empty(&mut self, id: NodeId)
        requires
            slot_of(id@) != u32::MAX,
            slot_of(id@) != 0,
            forall|k: u64| #[trigger]
                edge_entries(*old(self)).contains_key(k) ==> slot_of(k) != slot_of(id@),
        ensures
            edge_entries(*final(self)) == edge_entries(*old(self)).insert(id@, Seq::<Edge>::empty()),
    {
        self.inner.insert(slotmap::KeyData::from_ffi(id.raw()).into(), tinyvec::TinyVec::new());
    }

    /// `SecondaryMap::contains_key`: whether a list is stored under `id`.
    #[verifier::external_body]
    pub(crate) fn contains_key(&self, id: NodeId) -> (r: bool)
        ensures
            r == edge_entries(*self).contains_key(id@),
    {
        self.inner.contains_key(slotmap::KeyData::from_ffi(id.raw()).into())
    }

    /// `SecondaryMap::index_mut` and `TinyVec::push`: appends `edge` to the
    /// list stored under `id`. Indexing panics where no list is stored.
    #[verifier::external_body]
    pub(crate) fn push(&mut self, id: NodeId, edge: Edge)
        requires
            edge_entries(*old(self)).contains_key(id@),
        ensures
            edge_entries(*final(self)) == edge_entries(*old(self)).insert(
                id@,
                edge_entries(*old(self))[id@].push(edge),
            ),
    {
        self.inner[slotmap::KeyData::from_ffi(id.raw()).into()].push(edge);
    }

    /// `SecondaryMap::index` and `TinyVec::len`: the length of the list
    /// stored under `id`. Indexing panics where no list is stored.
    #[verifier::external_body]
    pub(crate) fn edge_count(&self, id: NodeId) -> (n: usize)
        requires
            edge_entries(*self).contains_key(id@),
        ensures
            n == edge_entries(*self)[id@].len(),
    {
        self.inner[slotmap::KeyData::from_ffi(id.raw()).into()].len()
    }

    /// `SecondaryMap::index` and the slice index of `TinyVec`: the edge at
    /// position `i` of the list stored under `id`. Both panic out of range.
    #[verifier::external_body]
    pub(crate) fn edge_at(&self, id: NodeId, i: usize) -> (edge: Edge)
        requires
            edge_entries(*self).contains_key(id@),
            i < edge_entries(*self)[id@].len(),
        ensures
            edge == edge_entries(*self)[id@][i as int],
    {
        self.inner[slotmap::KeyData::from_ffi(id.raw()).into()][i]
    }

    /// `SecondaryMap::retain`: keeps exactly the entries whose handle is in
    /// `marked`.
    #[verifier::external_body]
    pub(crate) fn retain_marked(&mut self, marked: &HashSet<u64>)
        ensures
            edge_entries(*final(self)) == edge_entries(*old(self)).restrict(marked@),
    {
        self.inner.retain(|key, _| holds(marked, key.data().as_ffi()));
    }
}

/// The mathematical content of a graph.
pub struct GraphView {
    pub start: Option<u64>,
    pub nodes: Map<u64, Node>,
    pub incoming: Map<u64, Seq<Edge>>,
    /// For each incoming edge, at the same position, the ports it feeds.
    pub targets: Map<u64, Seq<Edge>>,
}

impl GraphView {
    /// The handles that `id` refers to directly: the sources of its
    /// incoming edges and the markers of its regions.
    pub open spec fn refers(self, id: u64, to: u64) -> bool {
        self.nodes.contains_key(id) && self.incoming.contains_key(id) && {
            ||| exists|i: int|
                0 <= i < self.incoming[id].len() && #[trigger] self.incoming[id][i].node_id()@ == to
            ||| exists|i: int|
                0 <= i < self.nodes[id].region_seq().len() && (
                #[trigger] self.nodes[id].region_seq()[i]).start_id()@ == to
            ||| exists|i: int|
                0 <= i < self.nodes[id].region_seq().len() && (
                #[trigger] self.nodes[id].region_seq()[i]).end_id()@ == to
        }
    }

    /// Every handle that the graph mentions names one of its nodes.
    pub open spec fn closed(self) -> bool {
        &&& self.start matches Some(s) ==> self.nodes.contains_key(s)
        &&& forall|id: u64, to: u64| #[trigger] self.refers(id, to) ==> self.nodes.contains_key(to)
    }

    /// Whether `p` leads from the start node along references.
    pub open spec fn is_path(self, p: Seq<u64>) -> bool {
        &&& p.len() > 0
        &&& self.start == Some(p[0])
        &&& forall|i: int| #![trigger p[i]] 0 <= i < p.len() - 1 ==> self.refers(p[i], p[i + 1])
    }

    /// Whether a path leads from the start node to `id`.
    pub open spec fn reachable(self, id: u64) -> bool {
        exists|p: Seq<u64>| #[trigger] self.is_path(p) && p.last() == id
    }

    /// The handles that can be reached from the start node.
    pub open spec fn reachable_set(self) -> Set<u64> {
        Set::new(|id: u64| self.reachable(id))
    }

    /// The graph without the nodes that cannot be reached.
    pub open spec fn swept(self) -> GraphView {
        GraphView {
            start: self.start,
            nodes: self.nodes.restrict(self.reachable_set()),
            incoming: self.incoming.restrict(self.reachable_set()),
            targets: self.targets.restrict(self.reachable_set()),
        }
    }

    /// The start node is reachable.
    pub proof fn lemma_start_reachable(self)
        requires
            self.start is Some,
        ensures
            self.reachable(self.start->0),
    {
        let p = seq![self.start->0];
        assert(self.is_path(p));
        assert(p.last() == self.start->0);
    }

    /// What a reachable node refers to is reachable.
    pub proof fn lemma_step_reachable(self, id: u64, to: u64)
        requires
            self.reachable(id),
            self.refers(id, to),
        ensures
            self.reachable(to),
    {
        let p = choose|p: Seq<u64>| #[trigger] self.is_path(p) && p.last() == id;
        let q = p.push(to);
        assert forall|i: int| #![trigger q[i]] 0 <= i < q.len() - 1 implies self.refers(q[i], q[i + 1]) by {
            if i < p.len() - 1 {
                assert(q[i] == p[i]);
                assert(q[i + 1] == p[i + 1]);
            }
        }
        assert(self.is_path(q));
        assert(q.last() == to);
    }

    /// Every handle that can be reached from the start node names a node.
    /// This is what a sweep needs of a graph; what cannot be reached may
    /// mention anything.
    pub open spec fn reachable_closed(self) -> bool {
        forall|id: u64| #[trigger] self.reachable(id) ==> self.nodes.contains_key(id)
    }

    /// In a closed graph every reachable handle names a node.
    pub proof fn lemma_reachable_in_graph(self, id: u64)
        requires
            self.closed(),
            self.reachable(id),
        ensures
            self.nodes.contains_key(id),
    {
        let p = choose|p: Seq<u64>| #[trigger] self.is_path(p) && p.last() == id;
        if p.len() > 1 {
            let i = p.len() - 2;
            assert(self.refers(p[i], p[i + 1]));
        }
    }

    /// A closed graph is closed in what can be reached.
    pub proof fn lemma_closed_reachable_closed(self)
        requires
            self.closed(),
        ensures
            self.reachable_closed(),
    {
        assert forall|id: u64| #[trigger] self.reachable(id) implies self.nodes.contains_key(id) by {
            self.lemma_reachable_in_graph(id);
        }
    }

    /// A set that holds the start node and everything its members refer to
    /// holds every node on a path.
    pub proof fn lemma_closed_set_holds_path(self, set: Set<u64>, p: Seq<u64>)
        requires
            self.is_path(p),
            self.start matches Some(s) ==> set.contains(s),
            forall|id: u64, to: u64| set.contains(id) && #[trigger] self.refers(id, to) ==> set.contains(to),
        ensures
            set.contains(p.last()),
        decreases p.len(),
    {
        if p.len() > 1 {
            let q = p.drop_last();
            assert forall|i: int| #![trigger q[i]] 0 <= i < q.len() - 1 implies self.refers(q[i], q[i + 1]) by {
                assert(q[i] == p[i]);
                assert(q[i + 1] == p[i + 1]);
            }
            self.lemma_closed_set_holds_path(set, q);
            let i = p.len() - 2;
            assert(q.last() == p[i]);
            assert(self.refers(p[i], p[i + 1]));
        }
    }

    /// Sweeping a well-formed graph, in which what can be reached names
    /// nodes, gives a well-formed graph that is closed as a whole; and
    /// every node that survives a sweep is reachable in the swept graph: a
    /// second sweep removes nothing.
    pub proof fn lemma_sweep_fixed_point(self)
        requires
            self.wf(),
            self.reachable_closed(),
        ensures
            self.swept().wf(),
            self.swept().closed(),
            self.swept().reachable_set() == self.swept().nodes.dom(),
            self.swept().swept() == self.swept(),
    {
        let g = self.swept();
        let r = self.reachable_set();
        assert(g.nodes.dom() =~= self.nodes.dom().intersect(r));
        assert(g.incoming.dom() =~= self.incoming.dom().intersect(r));
        assert(g.targets.dom() =~= self.targets.dom().intersect(r));
        vstd::set_lib::lemma_len_intersect::<u64>(self.nodes.dom(), r);
        assert(g.wf());
        // references between surviving nodes are the references of the graph
        assert forall|id: u64, to: u64| r.contains(id) && self.refers(id, to) implies #[trigger] g.refers(id, to) by {
            self.lemma_swept_refers(id, to);
        }
        assert forall|id: u64, to: u64| #[trigger] g.refers(id, to) implies self.refers(id, to) && r.contains(id) by {
        }
        assert forall|id: u64, to: u64| #[trigger] g.refers(id, to) implies g.nodes.contains_key(to) by {
            assert(self.refers(id, to));
            self.lemma_step_reachable(id, to);
            assert(self.reachable(to));
        }
        if self.start is Some {
            self.lemma_start_reachable();
        }
        assert(g.closed());
        assert forall|id: u64| #[trigger] self.reachable(id) implies g.reachable(id) by {
            let p = choose|p: Seq<u64>| #[trigger] self.is_path(p) && p.last() == id;
            self.lemma_path_survives(p);
        }
        assert forall|id: u64| #[trigger] g.reachable(id) implies self.reachable(id) && self.nodes.contains_key(id) by {
            g.lemma_reachable_in_graph(id);
        }
        assert forall|id: u64| g.nodes.dom().contains(id) implies g.reachable_set().contains(id) by {
        }
        assert(g.reachable_set() =~= g.nodes.dom());
        assert(g.swept().nodes =~= g.nodes);
        assert(g.swept().incoming =~= g.incoming);
        assert(g.swept().targets =~= g.targets);
    }

    /// A path of a graph is a path of the swept graph.
    pub proof fn lemma_path_survives(self, p: Seq<u64>)
        requires
            self.reachable_closed(),
            self.is_path(p),
        ensures
            self.swept().is_path(p),
        decreases p.len(),
    {
        let g = self.swept();
        assert forall|i: int| #![trigger p[i]] 0 <= i < p.len() - 1 implies g.refers(p[i], p[i + 1]) by {
            let q = p.take(i + 1);
            assert forall|j: int| #![trigger q[j]] 0 <= j < q.len() - 1 implies self.refers(q[j], q[j + 1]) by {
                assert(q[j] == p[j]);
                assert(q[j + 1] == p[j + 1]);
            }
            assert(self.is_path(q));
            assert(q.last() == p[i]);
            assert(self.reachable(p[i]));
            assert(self.refers(p[i], p[i + 1]));
            self.lemma_swept_refers(p[i], p[i + 1]);
        }
    }

    /// A reference of a reachable node is a reference of the swept graph.
    pub proof fn lemma_swept_refers(self, id: u64, to: u64)
        requires
            self.reachable(id),
            self.refers(id, to),
        ensures
            self.swept().refers(id, to),
    {
        let g = self.swept();
        assert(self.reachable_set().contains(id));
        assert(g.nodes.contains_key(id));
        assert(g.incoming.contains_key(id));
        assert(g.nodes[id] == self.nodes[id]);
        assert(g.incoming[id] == self.incoming[id]);
    }

    /// Every connection joins two port ranges of the same width: the
    /// incoming edge at each position is as wide as the ports it feeds,
    /// which belong to the node that holds the edge.
    pub open spec fn aligned(self) -> bool {
        forall|id: u64| #[trigger]
            self.incoming.contains_key(id) ==> {
                &&& self.targets.contains_key(id)
                &&& self.targets[id].len() == self.incoming[id].len()
                &&& forall|i: int|
                    0 <= i < self.incoming[id].len() ==> (#[trigger] self.incoming[id][i]).width()
                        == self.targets[id][i].width() && self.targets[id][i].node_id()@ == id
            }
    }

    /// Sweeping keeps every surviving connection aligned.
    pub proof fn lemma_sweep_aligned(self)
        requires
            self.aligned(),
        ensures
            self.swept().aligned(),
    {
        let g = self.swept();
        assert forall|id: u64| #[trigger] g.incoming.contains_key(id) implies {
            &&& g.targets.contains_key(id)
            &&& g.targets[id].len() == g.incoming[id].len()
            &&& forall|i: int|
                0 <= i < g.incoming[id].len() ==> (#[trigger] g.incoming[id][i]).width() == g.targets[id][i].width()
                    && g.targets[id][i].node_id()@ == id
        } by {
            assert(self.reachable_set().contains(id));
            assert(self.incoming.contains_key(id));
            assert(self.targets.contains_key(id));
            assert(g.targets.contains_key(id));
            assert(g.incoming[id] == self.incoming[id]);
            assert(g.targets[id] == self.targets[id]);
        }
    }

    /// The structural invariant of a graph: finitely many nodes, an edge
    /// list for exactly the nodes, no slot shared by two handles, and no
    /// handle with slot 0 or with the slot of the null handle.
    pub open spec fn wf(self) -> bool {
        &&& self.nodes.dom().finite()
        &&& self.incoming.dom() == self.nodes.dom()
        &&& self.targets.dom() == self.nodes.dom()
        &&& forall|k: u64| #[trigger] self.nodes.contains_key(k) ==> slot_of(k) != u32::MAX && slot_of(k) != 0
        &&& forall|a: u64, b: u64|
            #[trigger] self.nodes.contains_key(a) && #[trigger] self.nodes.contains_key(b) && a != b
                ==> slot_of(a) != slot_of(b)
    }
}

/// Whether `list` names every node of `g` once, and nothing else.
pub open spec fn lists_nodes(list: Seq<NodeId>, g: GraphView) -> bool {
    &&& list.no_duplicates()
    &&& forall|i: int| 0 <= i < list.len() ==> g.nodes.contains_key(#[trigger] list[i]@)
    &&& forall|k: u64| g.nodes.contains_key(k) ==> exists|i: int| 0 <= i < list.len() && #[trigger] list[i]@ == k
}

/// A region graph.
pub struct Graph {
    pub start: Option<NodeId>,
    pub nodes: NodeMap,
    pub incoming: EdgeMap,
    /// The ports that each incoming edge feeds.
    pub targets: Ghost<Map<u64, Seq<Edge>>>,
}

impl View for Graph {
    type V = GraphView;

    open spec fn view(&self) -> GraphView {
        GraphView {
            start: match self.start {
                Some(id) => Some(id@),
                None => None,
            },
            nodes: node_entries(self.nodes),
            incoming: edge_entries(self.incoming),
            targets: self.targets@,
        }
    }
}

impl Default for Graph {
    /// The empty graph.
    fn default() -> (graph: Graph)
        ensures
            graph@.start is None,
            graph@.nodes == no_nodes(),
            graph@.incoming == no_edges(),
            graph@.targets == no_edges(),
            graph@.wf(),
            graph@.closed(),
            graph@.aligned(),
    {
        let graph = Graph {
            start: None,
            nodes: NodeMap::new(),
            incoming: EdgeMap::new(),
            targets: Ghost(Map::empty()),
        };
        assert(graph@.incoming.dom() =~= graph@.nodes.dom());
        assert(graph@.targets.dom() =~= graph@.nodes.dom());
        graph
    }
}

impl Graph {
    /// Removes every node and edge and forgets the start node.
    pub fn clear(&mut self)
        ensures
            final(self)@.start is None,
            final(self)@.nodes == no_nodes(),
            final(self)@.incoming == no_edges(),
            final(self)@.targets == no_edges(),
            final(self)@.wf(),
            final(self)@.closed(),
            final(self)@.aligned(),
    {
        self.start = None;
        self.nodes.clear();
        self.incoming.clear();
        self.targets = Ghost(Map::empty());
        assert(self@.incoming.dom() =~= self@.nodes.dom());
        assert(self@.targets.dom() =~= self@.nodes.dom());
    }

    /// The handles of the nodes, once each.
    pub fn node_ids(&self) -> (list: Vec<NodeId>)
        ensures
            lists_nodes(list@, self@),
    {
        self.nodes.keys()
    }

    /// Whether every handle in `list` names a node of the graph.
    fn holds_sources(&self, list: &Vec<Edge>) -> (r: bool)
        ensures
            r == forall|i: int| 0 <= i < list.len() ==> self@.nodes.contains_key((#[trigger] list[i]).node_id()@),
    {
        let mut i: usize = 0;
        while i < list.len()
            invariant
                i <= list.len(),
                forall|j: int| 0 <= j < i ==> self@.nodes.contains_key((#[trigger] list[j]).node_id()@),
            decreases list.len() - i,
        {
            if !self.contains(list[i].node()) {
                return false;
            }
            i += 1;
        }
        true
    }

    /// Whether both markers of every region in `list` are nodes of the
    /// graph.
    fn holds_regions(&self, list: &[Region]) -> (r: bool)
        ensures
            r == forall|i: int|
                0 <= i < list.len() ==> self@.nodes.contains_key((#[trigger] list[i]).start_id()@)
                    && self@.nodes.contains_key(list[i].end_id()@),
    {
        let mut i: usize = 0;
        while i < list.len()
            invariant
                i <= list.len(),
                forall|j: int|
                    0 <= j < i ==> self@.nodes.contains_key((#[trigger] list[j]).start_id()@)
                        && self@.nodes.contains_key(list[j].end_id()@),
            decreases list.len() - i,
        {
            if !self.contains(list[i].start()) || !self.contains(list[i].end()) {
                return false;
            }
            i += 1;
        }
        true
    }

    /// Whether node `id` refers to nodes of the graph only.
    fn refers_inside(&self, id: NodeId) -> (r: bool)
        requires
            self@.wf(),
            self@.nodes.contains_key(id@),
        ensures
            r == forall|to: u64| #[trigger] self@.refers(id@, to) ==> self@.nodes.contains_key(to),
    {
        let list = self.incoming_edges(id);
        let sources = self.holds_sources(&list);
        let node = self.nodes.get(id).unwrap();
        let regions = match node.as_regions() {
            Some(regions) => self.holds_regions(regions),
            None => true,
        };
        proof {
            let g = self@;
            assert(g.incoming.dom().contains(id@));
            if sources && regions {
                assert forall|to: u64| #[trigger] g.refers(id@, to) implies g.nodes.contains_key(to) by {
                    if exists|i: int| 0 <= i < g.incoming[id@].len() && #[trigger] g.incoming[id@][i].node_id()@ == to {
                        let i = choose|i: int|
                            0 <= i < g.incoming[id@].len() && #[trigger] g.incoming[id@][i].node_id()@ == to;
                        assert(g.nodes.contains_key(list[i].node_id()@));
                    }
                }
            } else if !sources {
                let i = choose|i: int| 0 <= i < list.len() && !g.nodes.contains_key((#[trigger] list[i]).node_id()@);
                assert(g.incoming[id@][i].node_id()@ == list[i].node_id()@);
                assert(g.refers(id@, list[i].node_id()@));
            } else {
                let all = node.region_seq();
                let i = choose|i: int|
                    0 <= i < all.len() && !(g.nodes.contains_key((#[trigger] all[i]).start_id()@)
                        && g.nodes.contains_key(all[i].end_id()@));
                if !g.nodes.contains_key(all[i].start_id()@) {
                    assert(g.nodes[id@].region_seq()[i].start_id()@ == all[i].start_id()@);
                    assert(g.refers(id@, all[i].start_id()@));
                } else {
                    assert(g.nodes[id@].region_seq()[i].end_id()@ == all[i].end_id()@);
                    assert(g.refers(id@, all[i].end_id()@));
                }
            }
        }
        sources && regions
    }

    /// Whether every handle that the graph mentions names one of its
    /// nodes.
    pub fn is_closed(&self) -> (r: bool)
        requires
            self@.wf(),
        ensures
            r == self@.closed(),
    {
        match self.start {
            Some(id) => {
                if !self.contains(id) {
                    return false;
                }
            },
            None => {},
        }
        let order = self.node_ids();
        let mut i: usize = 0;
        while i < order.len()
            invariant
                i <= order.len(),
                self@.wf(),
                lists_nodes(order@, self@),
                self@.start matches Some(s) ==> self@.nodes.contains_key(s),
                forall|j: int, to: u64|
                    0 <= j < i && #[trigger] self@.refers((#[trigger] order[j])@, to) ==> self@.nodes.contains_key(
                        to,
                    ),
            decreases order.len() - i,
        {
            if !self.refers_inside(order[i]) {
                return false;
            }
            i += 1;
        }
        proof {
            let g = self@;
            assert forall|id: u64, to: u64| #[trigger] g.refers(id, to) implies g.nodes.contains_key(to) by {
                let j = choose|j: int| 0 <= j < order.len() && #[trigger] order[j]@ == id;
                assert(g.refers(order[j]@, to));
            }
        }
        true
    }

    /// The number of nodes.
    pub fn len(&self) -> (n: usize)
        ensures
            n == self@.nodes.dom().len(),
    {
        self.nodes.len()
    }

    /// Whether `id` names a node of the graph.
    pub fn contains(&self, id: NodeId) -> (r: bool)
        ensures
            r == self@.nodes.contains_key(id@),
    {
        self.nodes.get(id).is_some()
    }

    /// The node that `id` names, if it is in the graph.
    pub fn node(&self, id: NodeId) -> (node: Option<&Node>)
        ensures
            match node {
                Some(n) => self@.nodes.contains_key(id@) && *n == self@.nodes[id@],
                None => !self@.nodes.contains_key(id@),
            },
    {
        self.nodes.get(id)
    }

    /// The incoming edges of `id`, oldest first; none if `id` is not in the
    /// graph.
    pub fn incoming_edges(&self, id: NodeId) -> (list: Vec<Edge>)
        ensures
            list@ == if self@.incoming.contains_key(id@) {
                self@.incoming[id@]
            } else {
                Seq::empty()
            },
    {
        let mut list: Vec<Edge> = Vec::new();
        if self.incoming.contains_key(id) {
            let n = self.incoming.edge_count(id);
            let mut i: usize = 0;
            while i < n
                invariant
                    i <= n,
                    self@.incoming.contains_key(id@),
                    n == self@.incoming[id@].len(),
                    list@ == self@.incoming[id@].take(i as int),
                decreases n - i,
            {
                list.push(self.incoming.edge_at(id, i));
                assert(self@.incoming[id@].take(i + 1) =~= self@.incoming[id@].take(i as int).push(
                    self@.incoming[id@][i as int],
                ));
                i += 1;
            }
            assert(self@.incoming[id@].take(n as int) =~= self@.incoming[id@]);
        }
        list
    }

    /// Adds what `node` converts into to the graph, with no incoming
    /// edges, and returns its handle.
    #[must_use]
    pub fn add_node<T>(&mut self, node: T) -> (id: NodeId) where T: Into<Node>
        requires
            old(self)@.wf(),
            old(self)@.nodes.dom().len() < NODE_LIMIT,
        ensures
            !old(self)@.nodes.contains_key(id@),
            final(self)@.start == old(self)@.start,
            final(self)@.nodes.dom() == old(self)@.nodes.dom().insert(id@),
            forall|k: u64| old(self)@.nodes.contains_key(k) ==> final(self)@.nodes[k] == old(self)@.nodes[k],
            T::obeys_into_spec() ==> final(self)@.nodes == old(self)@.nodes.insert(id@, node.into_spec()),
            final(self)@.incoming == old(self)@.incoming.insert(id@, Seq::<Edge>::empty()),
            final(self)@.targets == old(self)@.targets.insert(id@, Seq::<Edge>::empty()),
            final(self)@.wf(),
            old(self)@.aligned() ==> final(self)@.aligned(),
            old(self)@.closed() && (forall|i: int|
                0 <= i < final(self)@.nodes[id@].region_seq().len() ==> final(self)@.nodes.contains_key(
                    (#[trigger] final(self)@.nodes[id@].region_seq()[i]).start_id()@,
                ) && final(self)@.nodes.contains_key(final(self)@.nodes[id@].region_seq()[i].end_id()@))
                ==> final(self)@.closed(),
    {
        let made: Node = node.into();
        let id = self.insert_node(made);
        proof {
            let before = old(self)@;
            let after = self@;
            assert(after.nodes.dom() =~= before.nodes.dom().insert(id@));
            if before.closed() && (forall|i: int|
                0 <= i < after.nodes[id@].region_seq().len() ==> after.nodes.contains_key(
                    (#[trigger] after.nodes[id@].region_seq()[i]).start_id()@,
                ) && after.nodes.contains_key(after.nodes[id@].region_seq()[i].end_id()@)) {
                assert forall|from: u64, to: u64| #[trigger] after.refers(from, to) implies after.nodes.contains_key(
                    to,
                ) by {
                    if before.nodes.contains_key(from) {
                        assert(before.refers(from, to));
                    }
                }
            }
        }
        id
    }

    /// Adds `node` to the graph, with no incoming edges, and returns its
    /// handle.
    fn insert_node(&mut self, node: Node) -> (id: NodeId)
        requires
            old(self)@.wf(),
            old(self)@.nodes.dom().len() < NODE_LIMIT,
        ensures
            !old(self)@.nodes.contains_key(id@),
            final(self)@.start == old(self)@.start,
            final(self)@.nodes == old(self)@.nodes.insert(id@, node),
            final(self)@.incoming == old(self)@.incoming.insert(id@, Seq::<Edge>::empty()),
            final(self)@.targets == old(self)@.targets.insert(id@, Seq::<Edge>::empty()),
            final(self)@.wf(),
            old(self)@.aligned() ==> final(self)@.aligned(),
    {
        let id = self.nodes.insert(node);
        self.incoming.insert_empty(id);
        self.targets = Ghost(self.targets@.insert(id@, Seq::empty()));
        assert(self@.incoming.dom() =~= self@.nodes.dom());
        assert(self@.targets.dom() =~= self@.nodes.dom());
        id
    }

    /// Adds the two markers of a fresh region.
    #[must_use]
    pub fn add_region(&mut self) -> (region: Region)
        requires
            old(self)@.wf(),
            old(self)@.nodes.dom().len() + 1 < NODE_LIMIT,
        ensures
            final(self)@.wf(),
            old(self)@.aligned() ==> final(self)@.aligned(),
            region.start_id() != region.end_id(),
            !old(self)@.nodes.contains_key(region.start_id()@),
            !old(self)@.nodes.contains_key(region.end_id()@),
            final(self)@.start == old(self)@.start,
            final(self)@.nodes == old(self)@.nodes.insert(
                region.start_id()@,
                Node::Simple(Simple::RegionStart(RegionStart)),
            ).insert(region.end_id()@, Node::Simple(Simple::RegionEnd(RegionEnd))),
            final(self)@.incoming == old(self)@.incoming.insert(
                region.start_id()@,
                Seq::<Edge>::empty(),
            ).insert(region.end_id()@, Seq::<Edge>::empty()),
    {
        let start = self.insert_node(Node::Simple(Simple::RegionStart(RegionStart)));
        let end = self.insert_node(Node::Simple(Simple::RegionEnd(RegionEnd)));
        proof {
            NodeId::lemma_view_injective(start, end);
        }
        Region::new(start, end)
    }

    /// Adds a fresh region and the compound node that `T` makes of it.
    #[must_use]
    pub fn add_compound<T>(&mut self) -> (r: (Region, NodeId)) where T: From<Region> + Into<Node>
        requires
            old(self)@.wf(),
            old(self)@.nodes.dom().len() + 2 < NODE_LIMIT,
        ensures
            final(self)@.wf(),
            old(self)@.aligned() ==> final(self)@.aligned(),
            final(self)@.start == old(self)@.start,
            r.0.start_id() != r.0.end_id(),
            !old(self)@.nodes.contains_key(r.1@),
            !old(self)@.nodes.contains_key(r.0.start_id()@),
            !old(self)@.nodes.contains_key(r.0.end_id()@),
            final(self)@.nodes.dom() == old(self)@.nodes.dom().insert(r.0.start_id()@).insert(
                r.0.end_id()@,
            ).insert(r.1@),
            final(self)@.nodes[r.0.start_id()@] == Node::Simple(Simple::RegionStart(RegionStart)),
            final(self)@.nodes[r.0.end_id()@] == Node::Simple(Simple::RegionEnd(RegionEnd)),
            forall|k: u64| old(self)@.nodes.contains_key(k) ==> final(self)@.nodes[k] == old(self)@.nodes[k],
            <T as FromSpec<Region>>::obeys_from_spec() && <T as IntoSpec<Node>>::obeys_into_spec()
                ==> final(self)@.nodes[r.1@] == <T as FromSpec<Region>>::from_spec(r.0).into_spec(),
            final(self)@.incoming == old(self)@.incoming.insert(
                r.0.start_id()@,
                Seq::<Edge>::empty(),
            ).insert(r.0.end_id()@, Seq::<Edge>::empty()).insert(r.1@, Seq::<Edge>::empty()),
            old(self)@.closed() && final(self)@.nodes[r.1@].region_seq() == seq![r.0] ==> final(self)@.closed(),
    {
        let region = self.add_region();
        let ghost middle = self@;
        let compound = self.add_node(T::from(region));
        proof {
            let before = old(self)@;
            let after = self@;
            NodeId::lemma_view_injective(region.start_id(), region.end_id());
            assert(middle.nodes.contains_key(region.start_id()@));
            assert(middle.nodes.contains_key(region.end_id()@));
            assert(after.nodes.dom() =~= before.nodes.dom().insert(region.start_id()@).insert(
                region.end_id()@,
            ).insert(compound@));
            if before.closed() && after.nodes[compound@].region_seq() == seq![region] {
                assert forall|id: u64, to: u64| #[trigger] middle.refers(id, to) implies middle.nodes.contains_key(
                    to,
                ) by {
                    if before.nodes.contains_key(id) {
                        assert(before.refers(id, to));
                    } else {
                        assert(middle.nodes[id].region_seq() =~= Seq::<Region>::empty());
                    }
                }
                assert(middle.closed());
            }
        }
        (region, compound)
    }

    /// Adds a gamma node over `regions`.
    #[must_use]
    pub fn add_gamma(&mut self, regions: Vec<Region>) -> (id: NodeId)
        requires
            old(self)@.wf(),
            old(self)@.nodes.dom().len() < NODE_LIMIT,
        ensures
            final(self)@.wf(),
            old(self)@.aligned() ==> final(self)@.aligned(),
            !old(self)@.nodes.contains_key(id@),
            final(self)@.start == old(self)@.start,
            final(self)@.nodes.dom() == old(self)@.nodes.dom().insert(id@),
            forall|k: u64| old(self)@.nodes.contains_key(k) ==> final(self)@.nodes[k] == old(self)@.nodes[k],
            final(self)@.nodes[id@].region_seq() == regions@,
            final(self)@.nodes[id@] is Compound,
            final(self)@.incoming == old(self)@.incoming.insert(id@, Seq::<Edge>::empty()),
            old(self)@.closed() && (forall|i: int|
                0 <= i < regions.len() ==> old(self)@.nodes.contains_key(
                    (#[trigger] regions[i]).start_id()@,
                ) && old(self)@.nodes.contains_key(regions[i].end_id()@)) ==> final(self)@.closed(),
    {
        let ghost listed = regions@;
        let gamma = Gamma::new(regions);
        let id = self.insert_node(Node::Compound(Compound::Gamma(gamma)));
        proof {
            let before = old(self)@;
            let after = self@;
            assert(after.nodes.dom() =~= before.nodes.dom().insert(id@));
            if before.closed() && (forall|i: int|
                0 <= i < listed.len() ==> before.nodes.contains_key((#[trigger] listed[i]).start_id()@)
                    && before.nodes.contains_key(listed[i].end_id()@)) {
                assert forall|from: u64, to: u64| #[trigger] after.refers(from, to) implies after.nodes.contains_key(
                    to,
                ) by {
                    if before.nodes.contains_key(from) {
                        assert(before.refers(from, to));
                    }
                }
            }
        }
        id
    }

    /// Records that the ports of `from` feed the ports of `to`.
    pub fn add_connection(&mut self, from: Edge, to: Edge)
        requires
            old(self)@.wf(),
            old(self)@.nodes.contains_key(to.node_id()@),
            from.width() == to.width(),
        ensures
            final(self)@.wf(),
            final(self)@.start == old(self)@.start,
            final(self)@.nodes == old(self)@.nodes,
            final(self)@.incoming == old(self)@.incoming.insert(
                to.node_id()@,
                old(self)@.incoming[to.node_id()@].push(from),
            ),
            final(self)@.targets == old(self)@.targets.insert(
                to.node_id()@,
                old(self)@.targets[to.node_id()@].push(to),
            ),
            old(self)@.closed() && old(self)@.nodes.contains_key(from.node_id()@) ==> final(self)@.closed(),
            old(self)@.aligned() ==> final(self)@.aligned(),
    {
        let target = to.node();
        assert(self@.incoming.dom().contains(target@));
        self.incoming.push(target, from);
        self.targets = Ghost(self.targets@.insert(target@, self.targets@[target@].push(to)));
        proof {
            let before = old(self)@;
            let after = self@;
            assert(after.incoming.dom() =~= after.nodes.dom());
            assert(after.targets.dom() =~= after.nodes.dom());
            if before.closed() && before.nodes.contains_key(from.node_id()@) {
                assert forall|id: u64, dst: u64| #[trigger] after.refers(id, dst) implies after.nodes.contains_key(
                    dst,
                ) by {
                    if id != target@ {
                        assert(before.refers(id, dst));
                    } else if exists|i: int|
                        0 <= i < after.incoming[id].len() && #[trigger] after.incoming[id][i].node_id()@ == dst {
                        let i = choose|i: int|
                            0 <= i < after.incoming[id].len() && #[trigger] after.incoming[id][i].node_id()@
                                == dst;
                        if i < before.incoming[id].len() {
                            assert(before.incoming[id][i].node_id()@ == dst);
                            assert(before.refers(id, dst));
                        }
                    } else {
                        assert(before.refers(id, dst));
                    }
                }
            }
        }
    }
}

} // verus!
