use wasm_luau::data_flow::edge::Edge;
use wasm_luau::data_flow::graph::Graph;
use wasm_luau::data_flow::node::{Node, NodeId, Region, RegionEnd, RegionStart, Simple, Theta};
use wasm_luau::dot::template::{Cluster, Summary};
use wasm_luau::dot::view::{write_id, Color, Label, Mnemonic, NodeType, Ports};
use wasm_luau::dot::writer::Writer;

const TABLE: &str = "<TABLE BGCOLOR=\"#DDDDFF\" BORDER=\"1\" CELLSPACING=\"0\">";

fn start_node() -> Node {
    Node::Simple(Simple::RegionStart(RegionStart))
}

fn end_node() -> Node {
    Node::Simple(Simple::RegionEnd(RegionEnd))
}

fn name(id: NodeId) -> String {
    let mut s = String::new();
    write_id(id, &mut s);
    s
}

#[test]
fn colors_and_labels() {
    assert_eq!(Color(NodeType::Gamma).text(), "\"#8b81e8\"");
    assert_eq!(Color(NodeType::Theta).text(), "\"#bb84ca\"");
    assert_eq!(Color(NodeType::Lambda).text(), "\"#dde881\"");
    assert_eq!(Color(NodeType::Phi).text(), "\"#e6b79a\"");
    assert_eq!(Color(NodeType::Then).text(), "\"#89b7d7\"");
    assert_eq!(Color(NodeType::Reachable).text(), "\"#81e8bf\"");
    assert_eq!(Color(NodeType::NotReachable).text(), "\"#e881aa\"");
    assert_eq!(Label(NodeType::Gamma).text(), "\"Gamma\"");
    assert_eq!(Label(NodeType::NotReachable).text(), "\"Not Reachable\"");
    assert_eq!(Mnemonic(&Simple::RegionStart(RegionStart)).text(), "Start");
    assert_eq!(Mnemonic(&Simple::RegionEnd(RegionEnd)).text(), "End");
}

#[test]
fn ports_rows() {
    assert_eq!(Ports("i", 0).to_text(), "");
    assert_eq!(Ports("o", 1).to_text(), "<TR><TD PORT=\"o0\">0</TD></TR>");
    assert_eq!(
        Ports("i", 2).to_text(),
        "<TR><TD PORT=\"i0\">0</TD><TD PORT=\"i1\">1</TD></TR>"
    );
}

#[test]
fn node_names() {
    assert_eq!(name(NodeId::default()), "Nnull");
    let mut graph = Graph::default();
    let a = graph.add_node(start_node());
    let b = graph.add_node(end_node());
    assert_eq!(name(a), "N1v1");
    assert_eq!(name(b), "N2v1");
}

#[test]
fn summary_counts_incoming_ports() {
    let mut graph = Graph::default();
    let a = graph.add_node(start_node());
    let b = graph.add_node(end_node());
    graph.add_connection(Edge::at_range(a, 0, 1), Edge::at_range(b, 0, 1));
    graph.add_connection(Edge::at(a), Edge::at_port(b, 2));
    let mut summary = Summary::new(b, &graph);
    summary.set_outgoing(1);
    summary.set_outgoing(0);
    let mut text = String::new();
    summary.write(&mut text, "x");
    let expected = format!(
        "N2v1 [group = Simple, label = <{}<TR><TD PORT=\"i0\">0</TD><TD PORT=\"i1\">1</TD><TD PORT=\"i2\">2</TD></TR><TR><TD>x</TD></TR><TR><TD PORT=\"o0\">0</TD></TR></TABLE>>];\n",
        TABLE
    );
    assert_eq!(text, expected);
}

#[test]
fn cluster_frames_its_content() {
    let cluster = Cluster::new("reachable".to_string(), NodeType::Reachable);
    let mut text = String::new();
    cluster.write_labeled(&mut text, "inner;\n");
    assert_eq!(
        text,
        "subgraph cluster_reachable {\nfillcolor = \"#81e8bf\";\nlabel = \"Reachable\";\ninner;\n}\n"
    );
    let mut text = String::new();
    Cluster::of_node(NodeId::default(), NodeType::Then).write(&mut text, "3", "");
    assert_eq!(text, "subgraph cluster_Nnull {\nfillcolor = \"#89b7d7\";\nlabel = 3;\n}\n");
}

#[test]
fn rendering_of_two_connected_nodes() {
    let mut graph = Graph::default();
    let a = graph.add_node(start_node());
    let b = graph.add_node(end_node());
    let lost = graph.add_node(end_node());
    assert_eq!(name(lost), "N3v1");
    graph.add_connection(Edge::at(a), Edge::at(b));
    graph.start = Some(b);
    let text = Writer::default().render(&graph);
    let expected = format!(
        "digraph {{\nnode [shape = none];\nstyle = filled;\n\
         subgraph cluster_reachable {{\nfillcolor = \"#81e8bf\";\nlabel = \"Reachable\";\n\
         N1v1 [group = Simple, label = <{t}<TR><TD>Start</TD></TR><TR><TD PORT=\"o0\">0</TD></TR></TABLE>>];\n\
         N2v1 [group = Simple, label = <{t}<TR><TD PORT=\"i0\">0</TD></TR><TR><TD>End</TD></TR></TABLE>>];\n\
         N1v1:o0 -> N2v1:i0;\n\
         }}\n\
         subgraph cluster_unreachable {{\nfillcolor = \"#e881aa\";\nlabel = \"Not Reachable\";\n\
         N3v1 [group = Simple, label = <{t}<TR><TD>End</TD></TR></TABLE>>];\n\
         }}\n}}\n",
        t = TABLE
    );
    assert_eq!(text, expected);
}

#[test]
fn rendering_of_a_loop_redirects_its_edges() {
    let mut graph = Graph::default();
    let source = graph.add_node(start_node());
    let (region, theta) = graph.add_compound::<Theta>();
    graph.add_connection(Edge::at_range(source, 0, 1), Edge::at_range(theta, 0, 1));
    graph.start = Some(theta);
    let text = Writer::default().render(&graph);
    let start = name(region.start());
    // the edges of the loop are drawn into the start of its region
    assert!(text.contains(&format!("N1v1:o0 -> {}:i0;\nN1v1:o1 -> {}:i1;\n", start, start)), "{}", text);
    assert!(text.contains(&format!("subgraph cluster_{} {{\nfillcolor = \"#bb84ca\";\nlabel = \"Theta\";\n", start)), "{}", text);
    // the source is not drawn from the loop, so it is in the second cluster
    let second = text.find("subgraph cluster_unreachable").unwrap();
    let at = text.find("N1v1 [group").unwrap();
    assert!(at > second, "{}", text);
    assert!(text.ends_with("}\n}\n"));
}

#[test]
fn rendering_of_a_choice() {
    let mut graph = Graph::default();
    let first = graph.add_region();
    let second = graph.add_region();
    let regions: Vec<Region> = vec![first, second];
    let gamma = graph.add_gamma(regions);
    graph.start = Some(gamma);
    let text = Writer::default().render(&graph);
    assert!(text.contains(&format!("subgraph cluster_{} {{\nfillcolor = \"#8b81e8\";\nlabel = \"Gamma\";\n", name(gamma))), "{}", text);
    assert!(text.contains(&format!("{} [group = Simple, label = <{}<TR><TD>Selector</TD></TR></TABLE>>];\n", name(gamma), TABLE)), "{}", text);
    assert!(text.contains(&format!("subgraph cluster_{} {{\nfillcolor = \"#89b7d7\";\nlabel = 0;\n", name(first.start()))), "{}", text);
    assert!(text.contains(&format!("subgraph cluster_{} {{\nfillcolor = \"#89b7d7\";\nlabel = 1;\n", name(second.start()))), "{}", text);
    // every node is drawn once
    assert_eq!(text.matches("[group = Simple").count(), 5);
}

#[test]
fn rendering_of_the_empty_graph() {
    let graph = Graph::default();
    let text = Writer::default().render(&graph);
    assert_eq!(
        text,
        "digraph {\nnode [shape = none];\nstyle = filled;\n\
         subgraph cluster_unreachable {\nfillcolor = \"#e881aa\";\nlabel = \"Not Reachable\";\n}\n}\n"
    );
}

#[test]
fn writer_can_be_used_again() {
    let mut graph = Graph::default();
    let a = graph.add_node(start_node());
    let b = graph.add_node(end_node());
    graph.add_connection(Edge::at_range(a, 0, 2), Edge::at_range(b, 0, 2));
    graph.start = Some(b);
    let mut writer = Writer::default();
    let first = writer.render(&graph);
    let second = writer.render(&graph);
    assert_eq!(first, second);
    assert!(first.contains("<TD PORT=\"o2\">2</TD>"), "{}", first);
    assert!(first.contains("N1v1:o2 -> N2v1:i2;\n"), "{}", first);

    let empty = Graph::default();
    let third = writer.render(&empty);
    assert!(!third.contains("N1v1"), "{}", third);
}
