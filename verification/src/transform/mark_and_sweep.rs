//! Removal of the nodes that cannot be reached from the start node.

use std::collections::HashSet;

use vstd::prelude::*;

use crate::data_flow::graph::{Graph, GraphView};
use crate::data_flow::node::NodeId;

verus! {

broadcast use vstd::std_specs::hash::group_hash_axioms;

/// A collector for unreachable nodes. It keeps its work lists between runs.
pub struct MarkAndSweep {
    nodes_visited: HashSet<u64>,
    nodes_pending: Vec<NodeId>,
}

/// The number of nodes of `g` that are not in `visited`.
pub open spec fn unvisited(g: GraphView, visited: Set<u64>) -> nat {
    g.nodes.dom().difference(visited).len()
}

/// What holds of the work lists while marking: every visited handle is
/// reachable and names a node, every pending handle is visited, and a
/// visited handle other than `hole` that refers to an unvisited one is
/// still pending.
pub open spec fn marking(g: GraphView, visited: Set<u64>, pending: Seq<NodeId>, hole: Option<u64>) -> bool {
    &&& forall|id: u64| #[trigger] visited.contains(id) ==> g.reachable(id) && g.nodes.contains_key(id)
    &&& forall|i: int| 0 <= i < pending.len() ==> visited.contains(#[trigger] pending[i]@)
    &&& forall|id: u64, to: u64|
        visited.contains(id) && #[trigger] g.refers(id, to) && !visited.contains(to) && Some(id) != hole
            ==> exists|i: int| 0 <= i < pending.len() && #[trigger] pending[i]@ == id
}

impl Default for MarkAndSweep {
    fn default() -> (pass: MarkAndSweep)
        ensures
            pass.visited() == Set::<u64>::empty(),
            pass.pending() == Seq::<NodeId>::empty(),
    {
        MarkAndSweep { nodes_visited: HashSet::new(), nodes_pending: Vec::new() }
    }
}

impl MarkAndSweep {
    /// The handles seen so far.
    pub closed spec fn visited(&self) -> Set<u64> {
        self.nodes_visited@
    }

    /// The handles whose references are still to be followed.
    pub closed spec fn pending(&self) -> Seq<NodeId> {
        self.nodes_pending@
    }

    /// Marks `id` as visited and, if it was not, schedules it.
    pub fn mark_node_at(&mut self, id: NodeId)
        ensures
            final(self).visited() == old(self).visited().insert(id@),
            final(self).pending() == if old(self).visited().contains(id@) {
                old(self).pending()
            } else {
                old(self).pending().push(id)
            },
    {
        let raw = id.raw();
        if self.nodes_visited.contains(&raw) {
            assert(self.visited() =~= old(self).visited().insert(id@));
            return ;
        }
        self.nodes_visited.insert(raw);
        self.nodes_pending.push(id);
    }

    /// Marks `to`, which the hole refers to, and keeps the marking facts;
    /// unless `to` names no node.
    fn mark_target(&mut self, graph: &Graph, hole: u64, to: NodeId) -> (ok: bool)
        requires
            graph@.wf(),
            marking(graph@, old(self).visited(), old(self).pending(), Some(hole)),
            old(self).visited().contains(hole),
            graph@.refers(hole, to@),
        ensures
            ok == graph@.nodes.contains_key(to@),
            !ok ==> !graph@.reachable_closed(),
            ok ==> marking(graph@, final(self).visited(), final(self).pending(), Some(hole)),
            ok ==> final(self).visited() == old(self).visited().insert(to@),
            ok && old(self).visited().contains(to@) ==> final(self).pending() == old(self).pending(),
            ok && !old(self).visited().contains(to@) ==> unvisited(graph@, final(self).visited())
                < unvisited(graph@, old(self).visited()),
            ok ==> unvisited(graph@, final(self).visited()) <= unvisited(graph@, old(self).visited()),
    {
        let ghost g = graph@;
        let ghost v0 = self.visited();
        let ghost p0 = self.pending();
        if !graph.contains(to) {
            proof {
                g.lemma_step_reachable(hole, to@);
            }
            return false;
        }
        self.mark_node_at(to);
        proof {
            let v1 = self.visited();
            let p1 = self.pending();
            g.lemma_step_reachable(hole, to@);
            if !v0.contains(to@) {
                assert(g.nodes.dom().difference(v1) =~= g.nodes.dom().difference(v0).remove(to@));
                assert(g.nodes.dom().difference(v0).contains(to@));
                assert(p1.last() == to);
            } else {
                assert(v1 =~= v0);
            }
            assert forall|id: u64, dst: u64|
                v1.contains(id) && #[trigger] g.refers(id, dst) && !v1.contains(dst) && Some(id) != Some(
                    hole,
                ) implies exists|i: int| 0 <= i < p1.len() && #[trigger] p1[i]@ == id by {
                if id == to@ && !v0.contains(to@) {
                    assert(p1[p1.len() - 1]@ == id);
                } else {
                    let i = choose|i: int| 0 <= i < p0.len() && #[trigger] p0[i]@ == id;
                    assert(p1[i]@ == id);
                }
            }
            assert forall|i: int| 0 <= i < p1.len() implies v1.contains(#[trigger] p1[i]@) by {
                if i < p0.len() {
                    assert(p1[i] == p0[i]);
                }
            }
        }
        true
    }

    /// Marks everything that `id` refers to: the markers of its regions and
    /// the sources of its incoming edges. Stops where one of them names no
    /// node.
    fn mark_edges_at(&mut self, graph: &Graph, id: NodeId) -> (ok: bool)
        requires
            graph@.wf(),
            marking(graph@, old(self).visited(), old(self).pending(), Some(id@)),
            old(self).visited().contains(id@),
        ensures
            !ok ==> !graph@.reachable_closed(),
            ok ==> marking(graph@, final(self).visited(), final(self).pending(), None),
            ok ==> old(self).visited().subset_of(final(self).visited()),
            ok ==> unvisited(graph@, final(self).visited()) <= unvisited(graph@, old(self).visited()),
            ok && unvisited(graph@, final(self).visited()) == unvisited(graph@, old(self).visited())
                ==> final(self).pending() == old(self).pending(),
    {
        let ghost g = graph@;
        let ghost v0 = self.visited();
        let ghost p0 = self.pending();
        assert(g.nodes.contains_key(id@));
        assert(g.incoming.dom().contains(id@));
        let node = graph.nodes.get(id).unwrap();
        match node.as_regions() {
            Some(regions) => {
                let mut i: usize = 0;
                while i < regions.len()
                    invariant
                        i <= regions.len(),
                        g == graph@,
                        g.wf(),
                        g.nodes.contains_key(id@),
                        regions@ == g.nodes[id@].region_seq(),
                        marking(g, self.visited(), self.pending(), Some(id@)),
                        self.visited().contains(id@),
                        v0.subset_of(self.visited()),
                        unvisited(g, self.visited()) <= unvisited(g, v0),
                        unvisited(g, self.visited()) == unvisited(g, v0) ==> self.pending() == p0,
                        forall|j: int|
                            0 <= j < i ==> self.visited().contains((#[trigger] regions[j]).start_id()@)
                                && self.visited().contains(regions[j].end_id()@),
                    decreases regions.len() - i,
                {
                    let region = regions[i];
                    assert(g.refers(id@, region.start_id()@));
                    assert(g.refers(id@, region.end_id()@));
                    if !self.mark_target(graph, id.raw(), region.start()) {
                        return false;
                    }
                    if !self.mark_target(graph, id.raw(), region.end()) {
                        return false;
                    }
                    i += 1;
                }
            },
            None => {},
        }
        let ghost v1 = self.visited();
        let count = graph.incoming.edge_count(id);
        let mut i: usize = 0;
        while i < count
            invariant
                i <= count,
                g == graph@,
                g.wf(),
                g.nodes.contains_key(id@),
                count == g.incoming[id@].len(),
                marking(g, self.visited(), self.pending(), Some(id@)),
                self.visited().contains(id@),
                v1.subset_of(self.visited()),
                v0.subset_of(self.visited()),
                unvisited(g, self.visited()) <= unvisited(g, v0),
                unvisited(g, self.visited()) == unvisited(g, v0) ==> self.pending() == p0,
                forall|j: int| 0 <= j < i ==> self.visited().contains((#[trigger] g.incoming[id@][j]).node_id()@),
            decreases count - i,
        {
            let edge = graph.incoming.edge_at(id, i);
            assert(g.refers(id@, edge.node_id()@));
            if !self.mark_target(graph, id.raw(), edge.node()) {
                return false;
            }
            i += 1;
        }
        proof {
            let v2 = self.visited();
            let p2 = self.pending();
            assert forall|from: u64, to: u64|
                v2.contains(from) && #[trigger] g.refers(from, to) && !v2.contains(to) implies exists|i: int|
                0 <= i < p2.len() && #[trigger] p2[i]@ == from by {
                if from == id@ {
                    let list = g.nodes[id@].region_seq();
                    if exists|i: int| 0 <= i < g.incoming[id@].len() && #[trigger] g.incoming[id@][i].node_id()@ == to {
                        assert(false);
                    } else if exists|i: int| 0 <= i < list.len() && (#[trigger] list[i]).start_id()@ == to {
                        let k = choose|i: int| 0 <= i < list.len() && (#[trigger] list[i]).start_id()@ == to;
                        assert(node.region_seq() == list);
                        assert(v1.contains(list[k].start_id()@));
                        assert(false);
                    } else {
                        let k = choose|i: int| 0 <= i < list.len() && (#[trigger] list[i]).end_id()@ == to;
                        assert(node.region_seq() == list);
                        assert(v1.contains(list[k].end_id()@));
                        assert(false);
                    }
                }
            }
        }
        true
    }

    /// Marks every node that can be reached from the start node; unless a
    /// handle that can be reached names no node.
    fn mark(&mut self, graph: &Graph) -> (ok: bool)
        requires
            graph@.wf(),
            old(self).visited() == Set::<u64>::empty(),
            old(self).pending() == Seq::<NodeId>::empty(),
        ensures
            ok == graph@.reachable_closed(),
            ok ==> final(self).visited() == graph@.reachable_set(),
            ok ==> final(self).pending() == Seq::<NodeId>::empty(),
    {
        let ghost g = graph@;
        if let Some(start) = graph.start {
            if !graph.contains(start) {
                proof {
                    g.lemma_start_reachable();
                }
                return false;
            }
            self.mark_node_at(start);
            proof {
                g.lemma_start_reachable();
                assert(self.pending()[0] == start);
            }
        }
        assert(marking(g, self.visited(), self.pending(), None));
        while self.nodes_pending.len() > 0
            invariant
                g == graph@,
                g.wf(),
                marking(g, self.visited(), self.pending(), None),
                g.start matches Some(s) ==> self.visited().contains(s),
            decreases unvisited(g, self.visited()), self.pending().len(),
        {
            let ghost p0 = self.pending();
            let id = self.nodes_pending.pop().unwrap();
            proof {
                let p1 = self.pending();
                assert(p0.last() == id);
                assert(self.visited().contains(p0[p0.len() - 1]@));
                assert forall|i: int| 0 <= i < p1.len() implies self.visited().contains(#[trigger] p1[i]@) by {
                    assert(p1[i] == p0[i]);
                }
                assert forall|from: u64, to: u64|
                    self.visited().contains(from) && #[trigger] g.refers(from, to) && !self.visited().contains(to)
                        && Some(from) != Some(id@) implies exists|i: int|
                    0 <= i < p1.len() && #[trigger] p1[i]@ == from by {
                    let i = choose|i: int| 0 <= i < p0.len() && #[trigger] p0[i]@ == from;
                    assert(p1[i] == p0[i]);
                }
            }
            if !self.mark_edges_at(graph, id) {
                return false;
            }
        }
        proof {
            let v = self.visited();
            assert(self.pending() =~= Seq::<NodeId>::empty());
            assert forall|id: u64| g.reachable(id) implies v.contains(id) by {
                let p = choose|p: Seq<u64>| #[trigger] g.is_path(p) && p.last() == id;
                g.lemma_closed_set_holds_path(v, p);
            }
            assert(v =~= g.reachable_set());
        }
        true
    }

    /// Removes the nodes that were not marked, with their edge lists.
    fn sweep(&mut self, graph: &mut Graph)
        ensures
            final(graph)@.start == old(graph)@.start,
            final(graph)@.nodes == old(graph)@.nodes.restrict(old(self).visited()),
            final(graph)@.incoming == old(graph)@.incoming.restrict(old(self).visited()),
            final(graph)@.targets == old(graph)@.targets.restrict(old(self).visited()),
            final(self).visited() == old(self).visited(),
            final(self).pending() == old(self).pending(),
    {
        graph.nodes.retain_marked(&self.nodes_visited);
        graph.incoming.retain_marked(&self.nodes_visited);
        graph.targets = Ghost(graph.targets@.restrict(self.nodes_visited@));
    }

    /// Removes from `graph` every node that cannot be reached from its
    /// start node, if every handle that can be reached names a node; else
    /// leaves `graph` as it is. The graph that is left is closed, and
    /// sweeping it again removes nothing.
    pub fn try_run(&mut self, graph: &mut Graph) -> (ok: bool)
        requires
            old(graph)@.wf(),
        ensures
            ok == old(graph)@.reachable_closed(),
            !ok ==> final(graph)@ == old(graph)@,
            ok ==> final(graph)@ == old(graph)@.swept(),
            ok ==> final(graph)@.closed() && final(graph)@.reachable_closed(),
            ok ==> final(graph)@.swept() == final(graph)@,
            ok ==> final(graph)@.reachable_set() == final(graph)@.nodes.dom(),
            ok ==> final(self).visited() == old(graph)@.reachable_set(),
            ok && old(graph)@.aligned() ==> final(graph)@.aligned(),
            final(graph)@.wf(),
    {
        self.nodes_visited.clear();
        self.nodes_pending.clear();
        if !self.mark(graph) {
            return false;
        }
        self.sweep(graph);
        proof {
            old(graph)@.lemma_sweep_fixed_point();
            graph@.lemma_closed_reachable_closed();
            if old(graph)@.aligned() {
                old(graph)@.lemma_sweep_aligned();
            }
        }
        true
    }

    /// Removes from `graph` every node that cannot be reached from its
    /// start node. The graph that is left is closed, and sweeping it again
    /// removes nothing.
    pub fn run(&mut self, graph: &mut Graph)
        requires
            old(graph)@.wf(),
            old(graph)@.reachable_closed(),
        ensures
            final(graph)@ == old(graph)@.swept(),
            final(graph)@.wf(),
            final(graph)@.closed(),
            final(graph)@.reachable_closed(),
            final(graph)@.swept() == final(graph)@,
            final(graph)@.reachable_set() == final(graph)@.nodes.dom(),
            old(graph)@.aligned() ==> final(graph)@.aligned(),
            final(self).visited() == old(graph)@.reachable_set(),
    {
        let swept = self.try_run(graph);
        assert(swept);
    }
}

} // verus!
