//! The rendering of a graph: reachable nodes first, then the others.

use std::collections::HashSet;

use slotmap::Key;
use vstd::prelude::*;
use vstd::string::*;

use super::template::{cluster_open_out, edge_width, ports_capped, summary_out, width_capped, Cluster, Summary};
use super::view::{id_out, label_text, mnemonic_text, write_id, Mnemonic, NodeType};
use crate::data_flow::edge::Edge;
use crate::data_flow::graph::{Graph, GraphView};
use crate::data_flow::node::{slot_of, Compound, Node, NodeId, Region};
use crate::text::{decimal, push_index};
use crate::transform::mark_and_sweep::unvisited;

verus! {

broadcast use vstd::std_specs::hash::group_hash_axioms;

/// The summaries of the nodes of a graph, stored in a
/// `slotmap::SecondaryMap`.
#[verifier::external_body]
pub struct SummaryMap {
    inner: slotmap::SecondaryMap<slotmap::DefaultKey, Summary>,
}

/// The summaries a summary map holds, by raw handle.
pub uninterp spec fn summary_entries(m: SummaryMap) -> Map<u64, Summary>;

/// The summary map without entries.
pub open spec fn no_summaries() -> Map<u64, Summary> {
    Map::empty()
}

impl SummaryMap {
    /// `SecondaryMap::new`: a map without entries.
    #[verifier::external_body]
    pub(crate) fn new() -> (m: SummaryMap)
        ensures
            summary_entries(m) == no_summaries(),
    {
        SummaryMap { inner: slotmap::SecondaryMap::new() }
    }

    /// `SecondaryMap::clear`: removes every entry. It does so from slot 1
    /// on; nothing is ever stored at slot 0, which `insert` leaves out.
    #[verifier::external_body]
    pub(crate) fn clear(&mut self)
        ensures
            summary_entries(*final(self)) == no_summaries(),
    {
        self.inner.clear();
    }

    /// `SecondaryMap::insert`: stores `summary` under `id`, in place of
    /// what was stored there. The secondary map ignores the null handle
    /// and lets a handle displace another one of the same slot, so both
    /// are left out; so is slot 0, which `clear` does not reach.
    #[verifier::external_body]
    pub(crate) fn insert(&mut self, id: NodeId, summary: Summary)
        requires
            slot_of(id@) != u32::MAX,
            slot_of(id@) != 0,
            forall|k: u64| #[trigger]
                summary_entries(*old(self)).contains_key(k) && k != id@ ==> slot_of(k) != slot_of(id@),
        ensures
            summary_entries(*final(self)) == summary_entries(*old(self)).insert(id@, summary),
    {
        self.inner.insert(slotmap::KeyData::from_ffi(id.raw()).into(), summary);
    }

    /// `SecondaryMap::get`: the summary stored under `id`, if there is
    /// one.
    #[verifier::external_body]
    pub(crate) fn get(&self, id: NodeId) -> (summary: Option<Summary>)
        ensures
            summary == if summary_entries(*self).contains_key(id@) {
                Some(summary_entries(*self)[id@])
            } else {
                None
            },
    {
        self.inner.get(slotmap::KeyData::from_ffi(id.raw()).into()).copied()
    }
}

/// The node at which the output ports of node `id` are drawn: for a
/// compound node with one region the end of the region, else the node.
pub open spec fn head_id(g: GraphView, id: NodeId) -> NodeId {
    if g.nodes.contains_key(id@) {
        match g.nodes[id@] {
            Node::Compound(Compound::Theta(n)) => n.region_of().end_id(),
            Node::Compound(Compound::Lambda(n)) => n.region_of().end_id(),
            Node::Compound(Compound::Phi(n)) => n.region_of().end_id(),
            _ => id,
        }
    } else {
        id
    }
}

/// The node at which the output ports of node `id` are drawn.
pub fn get_node_head_id(id: NodeId, graph: &Graph) -> (head: NodeId)
    ensures
        head == head_id(graph@, id),
{
    match graph.node(id) {
        Some(Node::Compound(Compound::Theta(n))) => n.region().end(),
        Some(Node::Compound(Compound::Lambda(n))) => n.region().end(),
        Some(Node::Compound(Compound::Phi(n))) => n.region().end(),
        _ => id,
    }
}

/// `w` followed by `count` arrows, from the output ports of `from`
/// starting with `from_first` to the input ports of `to` starting with
/// `to_first`.
pub open spec fn arrows_out(w: Seq<char>, from: u64, to: u64, from_first: int, to_first: int, count: int) -> Seq<char>
    decreases count,
{
    if count <= 0 {
        w
    } else {
        let w = arrows_out(w, from, to, from_first, to_first, count - 1);
        let w = id_out(w, from) + ":o"@ + decimal((from_first + count - 1) as nat) + " -> "@;
        id_out(w, to) + ":i"@ + decimal((to_first + count - 1) as nat) + ";\n"@
    }
}

/// The smaller of two numbers.
pub open spec fn lesser(a: int, b: int) -> int {
    if a <= b {
        a
    } else {
        b
    }
}

/// `w` followed by the arrows of a connection: port by port, as far as
/// both edges reach.
pub open spec fn edge_out(w: Seq<char>, from: Edge, to: Edge, g: GraphView) -> Seq<char> {
    arrows_out(
        w,
        head_id(g, from.node_id())@,
        to.node_id()@,
        from.first() as int,
        to.first() as int,
        lesser(width_capped(from), width_capped(to)),
    )
}

/// Appends the arrows of a connection.
pub fn add_edge(w: &mut String, from: Edge, to: Edge, graph: &Graph)
    ensures
        final(w)@ == edge_out(old(w)@, from, to, graph@),
{
    let from_id = get_node_head_id(from.node(), graph);
    let to_id = to.node();
    let a = edge_width(from);
    let b = edge_width(to);
    let count = if a <= b {
        a
    } else {
        b
    };
    let mut k: usize = 0;
    while k < count
        invariant
            k <= count,
            count <= width_capped(from),
            count <= width_capped(to),
            w@ == arrows_out(old(w)@, from_id@, to_id@, from.first() as int, to.first() as int, k as int),
        decreases count - k,
    {
        write_id(from_id, w);
        w.append(":o");
        push_index(w, from.first_port() + k);
        w.append(" -> ");
        write_id(to_id, w);
        w.append(":i");
        push_index(w, to.first_port() + k);
        w.append(";\n");
        k += 1;
    }
}

/// `w` followed by the arrows of the first `k` edges of `list` into the
/// input ports of `to`, which are taken in order; with the number of
/// input ports taken. An edge without ports, or one for which no ports
/// are left, draws nothing.
pub open spec fn redirected_out(w: Seq<char>, to: NodeId, list: Seq<Edge>, k: int, g: GraphView) -> (Seq<char>, int)
    decreases k,
{
    if k <= 0 {
        (w, 0)
    } else {
        let r = redirected_out(w, to, list, k - 1, g);
        let width = width_capped(list[k - 1]);
        if width > 0 && r.1 + width <= usize::MAX {
            (
                arrows_out(
                    r.0,
                    head_id(g, list[k - 1].node_id())@,
                    to@,
                    list[k - 1].first() as int,
                    r.1,
                    width,
                ),
                r.1 + width,
            )
        } else {
            r
        }
    }
}

/// The incoming edges of a node; none for a node that the graph does not
/// hold.
pub open spec fn incoming_of(g: GraphView, id: NodeId) -> Seq<Edge> {
    if g.incoming.contains_key(id@) {
        g.incoming[id@]
    } else {
        Seq::empty()
    }
}

/// Appends the arrows of the incoming edges of `from`, drawn into the
/// input ports of `to`.
pub fn add_edges_redirected(w: &mut String, to: NodeId, from: NodeId, graph: &Graph)
    ensures
        final(w)@ == redirected_out(
            old(w)@,
            to,
            incoming_of(graph@, from),
            incoming_of(graph@, from).len() as int,
            graph@,
        ).0,
{
    let list = graph.incoming_edges(from);
    let mut start: usize = 0;
    let mut i: usize = 0;
    while i < list.len()
        invariant
            i <= list.len(),
            list@ == incoming_of(graph@, from),
            redirected_out(old(w)@, to, list@, i as int, graph@) == (w@, start as int),
        decreases list.len() - i,
    {
        let edge = list[i];
        let width = edge_width(edge);
        if width > 0 && width <= usize::MAX - start {
            let target = Edge::at_range(to, start, start + width - 1);
            add_edge(w, edge, target, graph);
            start += width;
        }
        i += 1;
    }
}

/// Appends the arrows of the incoming edges of `to`.
pub fn add_edges_incoming(w: &mut String, to: NodeId, graph: &Graph)
    ensures
        final(w)@ == redirected_out(
            old(w)@,
            to,
            incoming_of(graph@, to),
            incoming_of(graph@, to).len() as int,
            graph@,
        ).0,
{
    add_edges_redirected(w, to, to, graph)
}

/// `w` followed by the table of a node that has no summary in the
/// rendering: its input ports, and `label`.
pub open spec fn plain_out(w: Seq<char>, id: NodeId, g: GraphView, label: Seq<char>) -> Seq<char> {
    summary_out(w, id@, ports_capped(incoming_of(g, id), incoming_of(g, id).len() as int), 0, label)
}

/// A rendering in progress: the text so far, and the nodes drawn.
pub struct Drawing {
    pub text: Seq<char>,
    pub visited: Set<u64>,
}

/// The rendering with node `id` drawn, if it is not drawn yet: a node is
/// drawn once, behind the nodes that its incoming edges come from. `fuel`
/// bounds the depth of the walk; with more fuel than there are nodes left
/// to draw, the result does not depend on it (`lemma_draw_node`).
pub open spec fn draw_node(d: Drawing, id: NodeId, g: GraphView, info: Map<u64, Summary>, fuel: nat) -> Drawing
    decreases fuel, 0nat, 0nat,
{
    if d.visited.contains(id@) || fuel == 0 {
        d
    } else {
        let d = Drawing { visited: d.visited.insert(id@), ..d };
        let fuel = (fuel - 1) as nat;
        if g.nodes.contains_key(id@) {
            match g.nodes[id@] {
                Node::Simple(simple) => {
                    let d = draw_sources(d, incoming_of(g, id), incoming_of(g, id).len(), g, info, fuel);
                    let w = if info.contains_key(id@) {
                        summary_out(
                            d.text,
                            info[id@].node()@,
                            info[id@].incoming_ports() as int,
                            info[id@].outgoing_ports() as int,
                            mnemonic_text(simple),
                        )
                    } else {
                        d.text
                    };
                    Drawing {
                        text: redirected_out(w, id, incoming_of(g, id), incoming_of(g, id).len() as int, g).0,
                        ..d
                    }
                },
                Node::Compound(Compound::Gamma(gamma)) => {
                    let w = cluster_open_out(
                        d.text,
                        id_out(Seq::empty(), id@),
                        NodeType::Gamma,
                        label_text(NodeType::Gamma),
                    );
                    let w = plain_out(w, id, g, "Selector"@);
                    let w = redirected_out(w, id, incoming_of(g, id), incoming_of(g, id).len() as int, g).0;
                    let d = draw_branches(
                        Drawing { text: w, ..d },
                        gamma.region_seq(),
                        gamma.region_seq().len(),
                        g,
                        info,
                        fuel,
                    );
                    Drawing { text: d.text + "}\n"@, ..d }
                },
                Node::Compound(Compound::Theta(n)) => draw_region(
                    d,
                    n.region_of(),
                    NodeType::Theta,
                    id,
                    g,
                    info,
                    fuel,
                ),
                Node::Compound(Compound::Lambda(n)) => draw_region(
                    d,
                    n.region_of(),
                    NodeType::Lambda,
                    id,
                    g,
                    info,
                    fuel,
                ),
                Node::Compound(Compound::Phi(n)) => draw_region(d, n.region_of(), NodeType::Phi, id, g, info, fuel),
            }
        } else {
            Drawing { text: plain_out(d.text, id, g, "???"@), ..d }
        }
    }
}

/// The rendering with the sources of the first `k` edges of `list` drawn.
pub open spec fn draw_sources(d: Drawing, list: Seq<Edge>, k: nat, g: GraphView, info: Map<u64, Summary>, fuel: nat) -> Drawing
    decreases fuel, 1nat, k,
{
    if k == 0 {
        d
    } else {
        draw_node(
            draw_sources(d, list, (k - 1) as nat, g, info, fuel),
            list[k - 1].node_id(),
            g,
            info,
            fuel,
        )
    }
}

/// The rendering with the first `k` regions of a gamma node drawn, each
/// as a cluster with its number as the label.
pub open spec fn draw_branches(d: Drawing, list: Seq<Region>, k: nat, g: GraphView, info: Map<u64, Summary>, fuel: nat) -> Drawing
    decreases fuel, 1nat, k,
{
    if k == 0 {
        d
    } else {
        let d = draw_branches(d, list, (k - 1) as nat, g, info, fuel);
        let region = list[k - 1];
        let w = cluster_open_out(
            d.text,
            id_out(Seq::empty(), region.start_id()@),
            NodeType::Then,
            decimal((k - 1) as nat),
        );
        let d = draw_node(Drawing { text: w, ..d }, region.start_id(), g, info, fuel);
        let d = draw_node(d, region.end_id(), g, info, fuel);
        Drawing { text: d.text + "}\n"@, ..d }
    }
}

/// The rendering with the region of a compound node drawn as a cluster;
/// the incoming edges of the node are drawn into the start of the region.
pub open spec fn draw_region(d: Drawing, region: Region, typ: NodeType, id: NodeId, g: GraphView, info: Map<u64, Summary>, fuel: nat) -> Drawing
    decreases fuel, 1nat, 0nat,
{
    let w = redirected_out(
        d.text,
        region.start_id(),
        incoming_of(g, id),
        incoming_of(g, id).len() as int,
        g,
    ).0;
    let w = cluster_open_out(w, id_out(Seq::empty(), region.start_id()@), typ, label_text(typ));
    let d = draw_node(Drawing { text: w, ..d }, region.start_id(), g, info, fuel);
    let d = draw_node(d, region.end_id(), g, info, fuel);
    Drawing { text: d.text + "}\n"@, ..d }
}

/// The rendering with the first `k` nodes of `order` drawn.
pub open spec fn draw_all(d: Drawing, order: Seq<NodeId>, k: nat, g: GraphView, info: Map<u64, Summary>, fuel: nat) -> Drawing
    decreases k,
{
    if k == 0 {
        d
    } else {
        draw_node(draw_all(d, order, (k - 1) as nat, g, info, fuel), order[k - 1], g, info, fuel)
    }
}

/// The summaries with the output ports that the first `k` edges of
/// `list` use counted: an edge uses the output ports of the head of its
/// source up to its last port.
pub open spec fn count_edges(info: Map<u64, Summary>, list: Seq<Edge>, k: nat, g: GraphView) -> Map<u64, Summary>
    decreases k,
{
    if k == 0 {
        info
    } else {
        let info = count_edges(info, list, (k - 1) as nat, g);
        let edge = list[k - 1];
        let head = head_id(g, edge.node_id());
        if info.contains_key(head@) && edge.last() < usize::MAX {
            info.insert(head@, info[head@].raised((edge.last() + 1) as usize))
        } else {
            info
        }
    }
}

/// The summaries with the output ports counted that the incoming edges
/// of the first `k` nodes of `order` use.
pub open spec fn count_nodes(info: Map<u64, Summary>, order: Seq<NodeId>, k: nat, g: GraphView) -> Map<u64, Summary>
    decreases k,
{
    if k == 0 {
        info
    } else {
        count_edges(
            count_nodes(info, order, (k - 1) as nat, g),
            incoming_of(g, order[k - 1]),
            incoming_of(g, order[k - 1]).len(),
            g,
        )
    }
}

/// The summaries of the first `k` nodes of `order`, before their output
/// ports are counted.
pub open spec fn fresh_summaries(order: Seq<NodeId>, k: nat, g: GraphView) -> Map<u64, Summary>
    decreases k,
{
    if k == 0 {
        Map::empty()
    } else {
        fresh_summaries(order, (k - 1) as nat, g).insert(
            order[k - 1]@,
            Summary::fresh(
                order[k - 1],
                ports_capped(incoming_of(g, order[k - 1]), incoming_of(g, order[k - 1]).len() as int) as usize,
            ),
        )
    }
}

/// The summaries of the nodes of `g`, taken in the order `order`.
pub open spec fn summaries(order: Seq<NodeId>, g: GraphView) -> Map<u64, Summary> {
    count_nodes(fresh_summaries(order, order.len(), g), order, order.len(), g)
}

/// The depth to which a rendering of a graph with `count` nodes walks.
pub open spec fn fuel_for(count: nat) -> nat {
    if count < usize::MAX {
        count + 1
    } else {
        usize::MAX as nat
    }
}

/// `w` followed by the rendering of `g` with its nodes taken in the order
/// `order`, where the walk goes `fuel` nodes deep: a cluster with the
/// nodes that are drawn from the start node, if there is one, and a
/// cluster with the others.
pub open spec fn render_with(w: Seq<char>, g: GraphView, start: Option<NodeId>, order: Seq<NodeId>, fuel: nat) -> Seq<char> {
    let info = summaries(order, g);
    let w = w + "digraph {\n"@ + "node [shape = none];\n"@ + "style = filled;\n"@;
    let d = Drawing { text: w, visited: Set::empty() };
    let d = match start {
        Some(id) => {
            let w = cluster_open_out(d.text, "reachable"@, NodeType::Reachable, label_text(NodeType::Reachable));
            let d = draw_node(Drawing { text: w, ..d }, id, g, info, fuel);
            Drawing { text: d.text + "}\n"@, ..d }
        },
        None => d,
    };
    let w = cluster_open_out(
        d.text,
        "unreachable"@,
        NodeType::NotReachable,
        label_text(NodeType::NotReachable),
    );
    let d = draw_all(Drawing { text: w, ..d }, order, order.len(), g, info, fuel);
    d.text + "}\n"@ + "}\n"@
}

/// `w` followed by the rendering of `g`, with its nodes taken in the
/// order `order`. The walk goes one deeper than the graph has nodes,
/// which is as deep as it can go: `lemma_fuel_suffices`.
pub open spec fn render_out(w: Seq<char>, g: GraphView, start: Option<NodeId>, order: Seq<NodeId>) -> Seq<char> {
    render_with(w, g, start, order, fuel_for(g.nodes.dom().len()))
}

/// The more is drawn, the fewer nodes are left to draw.
pub proof fn lemma_unvisited_shrinks(g: GraphView, fewer: Set<u64>, more: Set<u64>)
    requires
        g.nodes.dom().finite(),
        fewer.subset_of(more),
    ensures
        unvisited(g, more) <= unvisited(g, fewer),
{
    vstd::set_lib::lemma_len_subset::<u64>(g.nodes.dom().difference(more), g.nodes.dom().difference(fewer));
}

/// With more fuel than there are nodes left to draw, drawing a node does
/// not depend on the fuel; and what was drawn stays drawn.
pub proof fn lemma_draw_node(d: Drawing, id: NodeId, g: GraphView, info: Map<u64, Summary>, fuel: nat, other: nat)
    requires
        g.nodes.dom().finite(),
        fuel > unvisited(g, d.visited),
        other > unvisited(g, d.visited),
    ensures
        draw_node(d, id, g, info, fuel) == draw_node(d, id, g, info, other),
        d.visited.subset_of(draw_node(d, id, g, info, fuel).visited),
    decreases fuel, 0nat, 0nat,
{
    if !d.visited.contains(id@) {
        let next = Drawing { visited: d.visited.insert(id@), ..d };
        let less = (fuel - 1) as nat;
        let rest = (other - 1) as nat;
        if g.nodes.contains_key(id@) {
            assert(g.nodes.dom().difference(next.visited) =~= g.nodes.dom().difference(d.visited).remove(id@));
            assert(g.nodes.dom().difference(d.visited).contains(id@));
            assert(unvisited(g, next.visited) < unvisited(g, d.visited));
            match g.nodes[id@] {
                Node::Simple(_) => {
                    lemma_draw_sources(
                        next,
                        incoming_of(g, id),
                        incoming_of(g, id).len(),
                        g,
                        info,
                        less,
                        rest,
                    );
                },
                Node::Compound(Compound::Gamma(gamma)) => {
                    let w = cluster_open_out(
                        next.text,
                        id_out(Seq::empty(), id@),
                        NodeType::Gamma,
                        label_text(NodeType::Gamma),
                    );
                    let w = plain_out(w, id, g, "Selector"@);
                    let w = redirected_out(w, id, incoming_of(g, id), incoming_of(g, id).len() as int, g).0;
                    lemma_draw_branches(
                        Drawing { text: w, ..next },
                        gamma.region_seq(),
                        gamma.region_seq().len(),
                        g,
                        info,
                        less,
                        rest,
                    );
                },
                Node::Compound(Compound::Theta(n)) => {
                    lemma_draw_region(next, n.region_of(), NodeType::Theta, id, g, info, less, rest);
                },
                Node::Compound(Compound::Lambda(n)) => {
                    lemma_draw_region(next, n.region_of(), NodeType::Lambda, id, g, info, less, rest);
                },
                Node::Compound(Compound::Phi(n)) => {
                    lemma_draw_region(next, n.region_of(), NodeType::Phi, id, g, info, less, rest);
                },
            }
        }
    }
}

pub proof fn lemma_draw_sources(d: Drawing, list: Seq<Edge>, k: nat, g: GraphView, info: Map<u64, Summary>, fuel: nat, other: nat)
    requires
        g.nodes.dom().finite(),
        fuel > unvisited(g, d.visited),
        other > unvisited(g, d.visited),
    ensures
        draw_sources(d, list, k, g, info, fuel) == draw_sources(d, list, k, g, info, other),
        d.visited.subset_of(draw_sources(d, list, k, g, info, fuel).visited),
    decreases fuel, 1nat, k,
{
    if k > 0 {
        lemma_draw_sources(d, list, (k - 1) as nat, g, info, fuel, other);
        let before = draw_sources(d, list, (k - 1) as nat, g, info, fuel);
        lemma_unvisited_shrinks(g, d.visited, before.visited);
        lemma_draw_node(before, list[k - 1].node_id(), g, info, fuel, other);
    }
}

pub proof fn lemma_draw_branches(d: Drawing, list: Seq<Region>, k: nat, g: GraphView, info: Map<u64, Summary>, fuel: nat, other: nat)
    requires
        g.nodes.dom().finite(),
        fuel > unvisited(g, d.visited),
        other > unvisited(g, d.visited),
    ensures
        draw_branches(d, list, k, g, info, fuel) == draw_branches(d, list, k, g, info, other),
        d.visited.subset_of(draw_branches(d, list, k, g, info, fuel).visited),
    decreases fuel, 1nat, k,
{
    if k > 0 {
        lemma_draw_branches(d, list, (k - 1) as nat, g, info, fuel, other);
        let before = draw_branches(d, list, (k - 1) as nat, g, info, fuel);
        lemma_unvisited_shrinks(g, d.visited, before.visited);
        let region = list[k - 1];
        let w = cluster_open_out(
            before.text,
            id_out(Seq::empty(), region.start_id()@),
            NodeType::Then,
            decimal((k - 1) as nat),
        );
        let opened = Drawing { text: w, ..before };
        lemma_draw_node(opened, region.start_id(), g, info, fuel, other);
        let first = draw_node(opened, region.start_id(), g, info, fuel);
        lemma_unvisited_shrinks(g, before.visited, first.visited);
        lemma_draw_node(first, region.end_id(), g, info, fuel, other);
    }
}

pub proof fn lemma_draw_region(d: Drawing, region: Region, typ: NodeType, id: NodeId, g: GraphView, info: Map<u64, Summary>, fuel: nat, other: nat)
    requires
        g.nodes.dom().finite(),
        fuel > unvisited(g, d.visited),
        other > unvisited(g, d.visited),
    ensures
        draw_region(d, region, typ, id, g, info, fuel) == draw_region(d, region, typ, id, g, info, other),
        d.visited.subset_of(draw_region(d, region, typ, id, g, info, fuel).visited),
    decreases fuel, 1nat, 0nat,
{
    let w = redirected_out(
        d.text,
        region.start_id(),
        incoming_of(g, id),
        incoming_of(g, id).len() as int,
        g,
    ).0;
    let w = cluster_open_out(w, id_out(Seq::empty(), region.start_id()@), typ, label_text(typ));
    let opened = Drawing { text: w, ..d };
    lemma_draw_node(opened, region.start_id(), g, info, fuel, other);
    let first = draw_node(opened, region.start_id(), g, info, fuel);
    lemma_unvisited_shrinks(g, d.visited, first.visited);
    lemma_draw_node(first, region.end_id(), g, info, fuel, other);
}

pub proof fn lemma_draw_all(d: Drawing, order: Seq<NodeId>, k: nat, g: GraphView, info: Map<u64, Summary>, fuel: nat, other: nat)
    requires
        g.nodes.dom().finite(),
        fuel > unvisited(g, d.visited),
        other > unvisited(g, d.visited),
    ensures
        draw_all(d, order, k, g, info, fuel) == draw_all(d, order, k, g, info, other),
        d.visited.subset_of(draw_all(d, order, k, g, info, fuel).visited),
    decreases k,
{
    if k > 0 {
        lemma_draw_all(d, order, (k - 1) as nat, g, info, fuel, other);
        let before = draw_all(d, order, (k - 1) as nat, g, info, fuel);
        lemma_unvisited_shrinks(g, d.visited, before.visited);
        lemma_draw_node(before, order[k - 1], g, info, fuel, other);
    }
}

/// The walk of a rendering never runs out of fuel: with any fuel above
/// the number of nodes, the rendering is the same.
pub proof fn lemma_fuel_suffices(w: Seq<char>, g: GraphView, start: Option<NodeId>, order: Seq<NodeId>, fuel: nat)
    requires
        g.nodes.dom().finite(),
        g.nodes.dom().len() < usize::MAX,
        fuel > g.nodes.dom().len(),
    ensures
        render_with(w, g, start, order, fuel) == render_out(w, g, start, order),
{
    let info = summaries(order, g);
    let other = fuel_for(g.nodes.dom().len());
    let head = w + "digraph {\n"@ + "node [shape = none];\n"@ + "style = filled;\n"@;
    let d = Drawing { text: head, visited: Set::empty() };
    assert(g.nodes.dom().difference(Set::<u64>::empty()) =~= g.nodes.dom());
    let d = match start {
        Some(id) => {
            let opened = Drawing {
                text: cluster_open_out(
                    d.text,
                    "reachable"@,
                    NodeType::Reachable,
                    label_text(NodeType::Reachable),
                ),
                ..d
            };
            lemma_draw_node(opened, id, g, info, fuel, other);
            let drawn = draw_node(opened, id, g, info, fuel);
            lemma_unvisited_shrinks(g, opened.visited, drawn.visited);
            Drawing { text: drawn.text + "}\n"@, ..drawn }
        },
        None => d,
    };
    let opened = Drawing {
        text: cluster_open_out(
            d.text,
            "unreachable"@,
            NodeType::NotReachable,
            label_text(NodeType::NotReachable),
        ),
        ..d
    };
    lemma_draw_all(opened, order, order.len(), g, info, fuel, other);
}

/// A renderer of graphs. It keeps its work lists between renderings.
pub struct Writer {
    nodes_visited: HashSet<u64>,
    node_info: SummaryMap,
}

impl Default for Writer {
    fn default() -> Writer {
        Writer { nodes_visited: HashSet::new(), node_info: SummaryMap::new() }
    }
}

impl Writer {
    /// The nodes drawn so far.
    pub closed spec fn visited(&self) -> Set<u64> {
        self.nodes_visited@
    }

    /// The summaries of the nodes.
    pub closed spec fn info(&self) -> Map<u64, Summary> {
        summary_entries(self.node_info)
    }

    fn add_nodes_incoming(&mut self, w: &mut String, id: NodeId, graph: &Graph, fuel: usize)
        ensures
            draw_sources(
                Drawing { text: old(w)@, visited: old(self).visited() },
                incoming_of(graph@, id),
                incoming_of(graph@, id).len(),
                graph@,
                old(self).info(),
                fuel as nat,
            ) == (Drawing { text: final(w)@, visited: final(self).visited() }),
            final(self).info() == old(self).info(),
        decreases fuel, 1nat, 0nat,
    {
        let list = graph.incoming_edges(id);
        let mut i: usize = 0;
        while i < list.len()
            invariant
                i <= list.len(),
                list@ == incoming_of(graph@, id),
                self.info() == old(self).info(),
                draw_sources(
                    Drawing { text: old(w)@, visited: old(self).visited() },
                    list@,
                    i as nat,
                    graph@,
                    old(self).info(),
                    fuel as nat,
                ) == (Drawing { text: w@, visited: self.visited() }),
            decreases list.len() - i,
        {
            self.maybe_add_node(w, list[i].node(), graph, fuel);
            i += 1;
        }
    }

    fn add_generic(&mut self, w: &mut String, region: Region, typ: NodeType, id: NodeId, graph: &Graph, fuel: usize)
        ensures
            draw_region(
                Drawing { text: old(w)@, visited: old(self).visited() },
                region,
                typ,
                id,
                graph@,
                old(self).info(),
                fuel as nat,
            ) == (Drawing { text: final(w)@, visited: final(self).visited() }),
            final(self).info() == old(self).info(),
        decreases fuel, 1nat, 0nat,
    {
        add_edges_redirected(w, region.start(), id, graph);
        let cluster = Cluster::of_node(region.start(), typ);
        cluster.open_labeled(w);
        self.maybe_add_node(w, region.start(), graph, fuel);
        self.maybe_add_node(w, region.end(), graph, fuel);
        cluster.close(w);
    }

    fn add_gamma(&mut self, w: &mut String, regions: &[Region], id: NodeId, graph: &Graph, fuel: usize)
        ensures
            draw_branches(
                Drawing { text: old(w)@, visited: old(self).visited() },
                regions@,
                regions@.len(),
                graph@,
                old(self).info(),
                fuel as nat,
            ) == (Drawing { text: final(w)@, visited: final(self).visited() }),
            final(self).info() == old(self).info(),
        decreases fuel, 1nat, 0nat,
    {
        let mut i: usize = 0;
        while i < regions.len()
            invariant
                i <= regions.len(),
                self.info() == old(self).info(),
                draw_branches(
                    Drawing { text: old(w)@, visited: old(self).visited() },
                    regions@,
                    i as nat,
                    graph@,
                    old(self).info(),
                    fuel as nat,
                ) == (Drawing { text: w@, visited: self.visited() }),
            decreases regions.len() - i,
        {
            let region = regions[i];
            let cluster = Cluster::of_node(region.start(), NodeType::Then);
            let mut label = String::new();
            push_index(&mut label, i);
            assert(label@ =~= decimal(i as nat));
            cluster.open(w, label.as_str());
            self.maybe_add_node(w, region.start(), graph, fuel);
            self.maybe_add_node(w, region.end(), graph, fuel);
            cluster.close(w);
            i += 1;
        }
    }

    /// Draws node `id`, unless it is drawn already.
    fn maybe_add_node(&mut self, w: &mut String, id: NodeId, graph: &Graph, fuel: usize)
        ensures
            draw_node(
                Drawing { text: old(w)@, visited: old(self).visited() },
                id,
                graph@,
                old(self).info(),
                fuel as nat,
            ) == (Drawing { text: final(w)@, visited: final(self).visited() }),
            final(self).info() == old(self).info(),
        decreases fuel, 0nat, 0nat,
    {
        if fuel == 0 || self.nodes_visited.contains(&id.raw()) {
            return ;
        }
        self.nodes_visited.insert(id.raw());
        let fuel = fuel - 1;
        match graph.node(id) {
            None => {
                Summary::new(id, graph).write(w, "???");
            },
            Some(Node::Simple(simple)) => {
                self.add_nodes_incoming(w, id, graph, fuel);
                match self.node_info.get(id) {
                    Some(summary) => {
                        summary.write(w, Mnemonic(simple).text());
                    },
                    None => {},
                }
                add_edges_incoming(w, id, graph);
            },
            Some(Node::Compound(Compound::Gamma(gamma))) => {
                let cluster = Cluster::of_node(id, NodeType::Gamma);
                cluster.open_labeled(w);
                Summary::new(id, graph).write(w, "Selector");
                add_edges_incoming(w, id, graph);
                self.add_gamma(w, gamma.regions(), id, graph, fuel);
                cluster.close(w);
            },
            Some(Node::Compound(Compound::Theta(n))) => {
                self.add_generic(w, n.region(), NodeType::Theta, id, graph, fuel);
            },
            Some(Node::Compound(Compound::Lambda(n))) => {
                self.add_generic(w, n.region(), NodeType::Lambda, id, graph, fuel);
            },
            Some(Node::Compound(Compound::Phi(n))) => {
                self.add_generic(w, n.region(), NodeType::Phi, id, graph, fuel);
            },
        }
    }
}


impl Writer {
    /// Counts the output ports that the incoming edges of `id` use.
    fn count_outgoing(&mut self, id: NodeId, graph: &Graph)
        requires
            graph@.wf(),
            old(self).info().dom().subset_of(graph@.nodes.dom()),
        ensures
            final(self).info() == count_edges(
                old(self).info(),
                incoming_of(graph@, id),
                incoming_of(graph@, id).len(),
                graph@,
            ),
            final(self).info().dom() == old(self).info().dom(),
            final(self).visited() == old(self).visited(),
    {
        let list = graph.incoming_edges(id);
        let mut i: usize = 0;
        while i < list.len()
            invariant
                i <= list.len(),
                graph@.wf(),
                list@ == incoming_of(graph@, id),
                self.info().dom() == old(self).info().dom(),
                self.info().dom().subset_of(graph@.nodes.dom()),
                self.visited() == old(self).visited(),
                self.info() == count_edges(old(self).info(), list@, i as nat, graph@),
            decreases list.len() - i,
        {
            let edge = list[i];
            let head = get_node_head_id(edge.node(), graph);
            if edge.last_port() < usize::MAX {
                match self.node_info.get(head) {
                    Some(mut summary) => {
                        summary.set_outgoing(edge.last_port() + 1);
                        assert(graph@.nodes.contains_key(head@));
                        assert forall|k: u64| #[trigger]
                            self.info().contains_key(k) && k != head@ implies slot_of(k) != slot_of(head@) by {
                            assert(graph@.nodes.contains_key(k));
                        }
                        let ghost before = self.info();
                        self.node_info.insert(head, summary);
                        assert(self.info().dom() =~= before.dom());
                    },
                    None => {},
                }
            }
            i += 1;
        }
    }

    /// Makes the summaries of the nodes of `graph`, which are `order`.
    fn initialize_nodes(&mut self, graph: &Graph, order: &Vec<NodeId>)
        requires
            graph@.wf(),
            crate::data_flow::graph::lists_nodes(order@, graph@),
        ensures
            final(self).info() == summaries(order@, graph@),
            final(self).visited() == old(self).visited(),
    {
        self.node_info.clear();
        let mut i: usize = 0;
        assert(self.info() =~= fresh_summaries(order@, 0, graph@));
        while i < order.len()
            invariant
                i <= order.len(),
                graph@.wf(),
                crate::data_flow::graph::lists_nodes(order@, graph@),
                self.visited() == old(self).visited(),
                self.info() == fresh_summaries(order@, i as nat, graph@),
                self.info().dom().subset_of(graph@.nodes.dom()),
            decreases order.len() - i,
        {
            let id = order[i];
            let summary = Summary::new(id, graph);
            assert(graph@.nodes.contains_key(order@[i as int]@));
            assert forall|k: u64| #[trigger] self.info().contains_key(k) && k != id@ implies slot_of(k)
                != slot_of(id@) by {
                assert(graph@.nodes.contains_key(k));
            }
            self.node_info.insert(id, summary);
            i += 1;
        }
        let mut i: usize = 0;
        let ghost fresh = self.info();
        while i < order.len()
            invariant
                i <= order.len(),
                graph@.wf(),
                self.visited() == old(self).visited(),
                fresh == fresh_summaries(order@, order@.len(), graph@),
                self.info() == count_nodes(fresh, order@, i as nat, graph@),
                self.info().dom().subset_of(graph@.nodes.dom()),
            decreases order.len() - i,
        {
            self.count_outgoing(order[i], graph);
            i += 1;
        }
    }

    /// Draws the nodes that are drawn from the start node, in a cluster.
    fn add_reachable(&mut self, w: &mut String, graph: &Graph, fuel: usize)
        ensures
            final(self).info() == old(self).info(),
            (Drawing { text: final(w)@, visited: final(self).visited() }) == match graph.start {
                Some(id) => {
                    let d = draw_node(
                        Drawing {
                            text: cluster_open_out(
                                old(w)@,
                                "reachable"@,
                                NodeType::Reachable,
                                label_text(NodeType::Reachable),
                            ),
                            visited: old(self).visited(),
                        },
                        id,
                        graph@,
                        old(self).info(),
                        fuel as nat,
                    );
                    Drawing { text: d.text + "}\n"@, ..d }
                },
                None => Drawing { text: old(w)@, visited: old(self).visited() },
            },
    {
        match graph.start {
            Some(id) => {
                let cluster = Cluster::new(String::from_str("reachable"), NodeType::Reachable);
                cluster.open_labeled(w);
                self.maybe_add_node(w, id, graph, fuel);
                cluster.close(w);
            },
            None => {},
        }
    }

    /// Draws the nodes that are not drawn yet, in a cluster.
    fn add_not_unreachable(&mut self, w: &mut String, graph: &Graph, order: &Vec<NodeId>, fuel: usize)
        ensures
            final(self).info() == old(self).info(),
            final(w)@ == draw_all(
                Drawing {
                    text: cluster_open_out(
                        old(w)@,
                        "unreachable"@,
                        NodeType::NotReachable,
                        label_text(NodeType::NotReachable),
                    ),
                    visited: old(self).visited(),
                },
                order@,
                order@.len(),
                graph@,
                old(self).info(),
                fuel as nat,
            ).text + "}\n"@,
    {
        let cluster = Cluster::new(String::from_str("unreachable"), NodeType::NotReachable);
        cluster.open_labeled(w);
        let ghost first = Drawing { text: w@, visited: self.visited() };
        let mut i: usize = 0;
        while i < order.len()
            invariant
                i <= order.len(),
                self.info() == old(self).info(),
                draw_all(first, order@, i as nat, graph@, old(self).info(), fuel as nat) == (Drawing {
                    text: w@,
                    visited: self.visited(),
                }),
            decreases order.len() - i,
        {
            self.maybe_add_node(w, order[i], graph, fuel);
            i += 1;
        }
        cluster.close(w);
    }

    /// Appends the rendering of `graph` to `w`.
    pub fn write(&mut self, w: &mut String, graph: &Graph)
        requires
            graph@.wf(),
        ensures
            exists|order: Seq<NodeId>|
                crate::data_flow::graph::lists_nodes(order, graph@) && final(w)@ == #[trigger] render_out(
                    old(w)@,
                    graph@,
                    graph.start,
                    order,
                ),
    {
        w.append("digraph {\n");
        w.append("node [shape = none];\n");
        w.append("style = filled;\n");
        self.nodes_visited.clear();
        let order = graph.node_ids();
        let count = graph.len();
        let fuel = if count < usize::MAX {
            count + 1
        } else {
            usize::MAX
        };
        self.initialize_nodes(graph, &order);
        self.add_reachable(w, graph, fuel);
        self.add_not_unreachable(w, graph, &order, fuel);
        w.append("}\n");
        assert(w@ == render_out(old(w)@, graph@, graph.start, order@));
    }

    /// The rendering of `graph`.
    pub fn render(&mut self, graph: &Graph) -> (text: String)
        requires
            graph@.wf(),
        ensures
            exists|order: Seq<NodeId>|
                crate::data_flow::graph::lists_nodes(order, graph@) && text@ == #[trigger] render_out(
                    Seq::empty(),
                    graph@,
                    graph.start,
                    order,
                ),
    {
        let mut w = String::new();
        self.write(&mut w, graph);
        w
    }
}

} // verus!
