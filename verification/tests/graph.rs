use wasm_luau::data_flow::edge::Edge;
use wasm_luau::data_flow::graph::Graph;
use wasm_luau::data_flow::node::{Lambda, Node, NodeId, RegionEnd, RegionStart, Simple, Theta};
use wasm_luau::transform::mark_and_sweep::MarkAndSweep;

#[test]
fn edge_constructors_agree() {
    let id = NodeId::default();
    let a = Edge::at(id);
    let b = Edge::at_port(id, 0);
    let c = Edge::at_range(id, 0, 0);
    assert_eq!(a.ports(), 0..1);
    assert_eq!(b.ports(), 0..1);
    assert_eq!(c.ports(), 0..1);
    assert!(a.node().same(id));
    assert_eq!(Edge::at_range(id, 2, 5).ports(), 2..6);
    assert_eq!(Edge::at_range(id, 2, 5).port_count(), 4);
}

#[test]
fn add_node_gives_fresh_handles() {
    let mut graph = Graph::default();
    let a = graph.add_node(Node::Simple(Simple::RegionStart(RegionStart)));
    let b = graph.add_node(Node::Simple(Simple::RegionEnd(RegionEnd)));
    assert!(!a.same(b));
    assert_eq!(graph.len(), 2);
    assert!(graph.contains(a));
    assert!(graph.contains(b));
    assert!(!graph.contains(NodeId::default()));
    assert!(graph.incoming_edges(a).is_empty());
}

#[test]
fn connection_is_recorded_at_target() {
    let mut graph = Graph::default();
    let a = graph.add_node(Node::Simple(Simple::RegionStart(RegionStart)));
    let b = graph.add_node(Node::Simple(Simple::RegionEnd(RegionEnd)));
    graph.add_connection(Edge::at_range(a, 0, 1), Edge::at_range(b, 3, 4));
    let list = graph.incoming_edges(b);
    assert_eq!(list.len(), 1);
    assert!(list[0].node().same(a));
    assert_eq!(list[0].ports(), 0..2);
    assert!(graph.incoming_edges(a).is_empty());
}

#[test]
fn sweep_removes_unreachable_nodes() {
    let mut graph = Graph::default();
    let (region, theta) = graph.add_compound::<Theta>();
    let source = graph.add_node(Node::Simple(Simple::RegionStart(RegionStart)));
    let lost = graph.add_node(Node::Simple(Simple::RegionEnd(RegionEnd)));
    graph.add_connection(Edge::at(source), Edge::at(theta));
    graph.start = Some(theta);

    let mut pass = MarkAndSweep::default();
    pass.run(&mut graph);

    assert_eq!(graph.len(), 4);
    assert!(graph.contains(theta));
    assert!(graph.contains(region.start()));
    assert!(graph.contains(region.end()));
    assert!(graph.contains(source));
    assert!(!graph.contains(lost));
    assert!(graph.incoming_edges(lost).is_empty());
    assert_eq!(graph.incoming_edges(theta).len(), 1);
}

#[test]
fn second_sweep_changes_nothing() {
    let mut graph = Graph::default();
    let (_, lambda) = graph.add_compound::<Lambda>();
    let _ = graph.add_region();
    graph.start = Some(lambda);

    let mut pass = MarkAndSweep::default();
    pass.run(&mut graph);
    let first = graph.len();
    pass.run(&mut graph);

    assert_eq!(first, 3);
    assert_eq!(graph.len(), 3);
}

#[test]
fn sweep_without_start_removes_everything() {
    let mut graph = Graph::default();
    let _ = graph.add_region();
    let mut pass = MarkAndSweep::default();
    pass.run(&mut graph);
    assert_eq!(graph.len(), 0);
}

#[test]
fn handles_are_reused_with_new_generation() {
    let mut graph = Graph::default();
    let a = graph.add_node(Node::Simple(Simple::RegionStart(RegionStart)));
    let mut pass = MarkAndSweep::default();
    pass.run(&mut graph);
    assert!(!graph.contains(a));
    let b = graph.add_node(Node::Simple(Simple::RegionStart(RegionStart)));
    assert!(!a.same(b));
    assert!(graph.contains(b));
    assert!(!graph.contains(a));
    assert!(graph.incoming_edges(b).is_empty());
}

#[test]
fn clear_empties_the_graph() {
    let mut graph = Graph::default();
    let a = graph.add_node(Node::Simple(Simple::RegionStart(RegionStart)));
    graph.start = Some(a);
    graph.clear();
    assert_eq!(graph.len(), 0);
    assert!(graph.start.is_none());
}

#[test]
fn closed_graph_mentions_only_its_nodes() {
    let mut graph = Graph::default();
    assert!(graph.is_closed());
    let a = graph.add_node(Node::Simple(Simple::RegionStart(RegionStart)));
    let b = graph.add_node(Node::Simple(Simple::RegionEnd(RegionEnd)));
    graph.add_connection(Edge::at(a), Edge::at(b));
    graph.start = Some(a);
    assert!(graph.is_closed());

    // an edge from a node that is gone
    let mut pass = MarkAndSweep::default();
    pass.run(&mut graph);
    assert!(graph.contains(a));
    assert!(!graph.contains(b));
    graph.add_connection(Edge::at(b), Edge::at(a));
    assert!(!graph.is_closed());
}

#[test]
fn start_outside_the_graph_is_not_closed() {
    let mut graph = Graph::default();
    graph.start = Some(NodeId::default());
    assert!(!graph.is_closed());
    let mut other = Graph::default();
    let foreign = other.add_region();
    let _ = other.add_region();
    let gamma = graph.add_gamma(vec![foreign]);
    graph.start = Some(gamma);
    // the region of the gamma node names a slot that this graph does not hold
    assert!(!graph.is_closed());
}

#[test]
fn node_ids_lists_every_node_once() {
    let mut graph = Graph::default();
    let a = graph.add_node(Node::Simple(Simple::RegionStart(RegionStart)));
    let b = graph.add_node(Node::Simple(Simple::RegionEnd(RegionEnd)));
    let list = graph.node_ids();
    assert_eq!(list.len(), 2);
    assert!(list.iter().any(|id| id.same(a)));
    assert!(list.iter().any(|id| id.same(b)));
    assert!(matches!(graph.node(a), Some(Node::Simple(Simple::RegionStart(_)))));
    assert!(graph.node(NodeId::default()).is_none());
}

#[test]
fn nodes_are_made_from_their_parts() {
    let mut graph = Graph::default();
    let a = graph.add_node(RegionStart);
    let b = graph.add_node(RegionEnd);
    assert!(matches!(graph.node(a), Some(Node::Simple(Simple::RegionStart(_)))));
    assert!(matches!(graph.node(b), Some(Node::Simple(Simple::RegionEnd(_)))));
    let (region, phi) = graph.add_compound::<wasm_luau::data_flow::node::Phi>();
    match graph.node(phi) {
        Some(node) => {
            let regions = node.as_regions().unwrap();
            assert_eq!(regions.len(), 1);
            assert!(regions[0].start().same(region.start()));
            assert!(regions[0].end().same(region.end()));
            assert!(node.as_simple().is_none());
            assert!(node.as_compound().is_some());
        }
        None => panic!("the node is missing"),
    }
    assert!(graph.is_closed());
}

#[test]
fn sweep_needs_only_what_can_be_reached_to_be_there() {
    // `lost` cannot be reached and has an edge from a node that is gone
    let mut graph = Graph::default();
    let gone = graph.add_node(RegionStart);
    let mut pass = MarkAndSweep::default();
    assert!(pass.try_run(&mut graph));
    assert!(!graph.contains(gone));
    let kept = graph.add_node(RegionStart);
    let lost = graph.add_node(RegionEnd);
    graph.add_connection(Edge::at(gone), Edge::at(lost));
    graph.start = Some(kept);
    assert!(!graph.is_closed());
    assert!(pass.try_run(&mut graph));
    assert!(graph.contains(kept));
    assert!(!graph.contains(lost));
    assert_eq!(graph.len(), 1);
    assert!(graph.is_closed());
    // a second sweep removes nothing
    assert!(pass.try_run(&mut graph));
    assert_eq!(graph.len(), 1);
    assert!(graph.contains(kept));
}

#[test]
fn sweep_is_refused_where_a_reachable_handle_names_no_node() {
    let mut graph = Graph::default();
    let gone = graph.add_node(RegionStart);
    let mut pass = MarkAndSweep::default();
    pass.run(&mut graph);
    let kept = graph.add_node(RegionStart);
    let other = graph.add_node(RegionEnd);
    graph.add_connection(Edge::at(gone), Edge::at(kept));
    graph.start = Some(kept);
    assert!(!pass.try_run(&mut graph));
    // nothing was removed
    assert_eq!(graph.len(), 2);
    assert!(graph.contains(kept));
    assert!(graph.contains(other));
    assert_eq!(graph.incoming_edges(kept).len(), 1);

    let mut graph = Graph::default();
    let _ = graph.add_node(RegionStart);
    graph.start = Some(NodeId::default());
    assert!(!pass.try_run(&mut graph));
    assert_eq!(graph.len(), 1);
}
