//! The table that renders a node, and the cluster that groups nodes.

use vstd::prelude::*;
use vstd::string::*;

use super::view::{color_text, id_out, label_text, ports_out, write_id, Color, Label, NodeType, Ports};
use crate::data_flow::edge::Edge;
use crate::data_flow::graph::Graph;
use crate::data_flow::node::NodeId;

verus! {

/// The number of ports of an edge, as far as it is a machine integer.
pub open spec fn width_capped(e: Edge) -> int {
    if e.width() <= usize::MAX {
        e.width()
    } else {
        usize::MAX as int
    }
}

/// The sum of the numbers of ports of the first `k` edges, as far as it
/// is a machine integer.
pub open spec fn ports_capped(list: Seq<Edge>, k: int) -> int
    decreases k,
{
    if k <= 0 {
        0
    } else if ports_capped(list, k - 1) + width_capped(list[k - 1]) <= usize::MAX {
        ports_capped(list, k - 1) + width_capped(list[k - 1])
    } else {
        usize::MAX as int
    }
}

/// The number of ports of an edge, as far as it is a machine integer.
pub fn edge_width(e: Edge) -> (n: usize)
    ensures
        n == width_capped(e),
{
    let first = e.first_port();
    let last = e.last_port();
    if first <= last {
        if last - first < usize::MAX {
            last - first + 1
        } else {
            usize::MAX
        }
    } else {
        0
    }
}

/// The numbers of input and output ports of a node.
#[derive(Clone, Copy)]
pub struct Summary {
    incoming: usize,
    outgoing: usize,
    id: NodeId,
}

/// `w` followed by the table that renders a node with `incoming` input
/// ports and `outgoing` output ports under the text `label`.
pub open spec fn summary_out(w: Seq<char>, id: u64, incoming: int, outgoing: int, label: Seq<char>) -> Seq<char> {
    let w = id_out(w, id) + " [group = Simple, label = <"@;
    let w = w + "<TABLE BGCOLOR=\"#DDDDFF\" BORDER=\"1\" CELLSPACING=\"0\">"@;
    let w = ports_out(w, "i"@, incoming) + "<TR><TD>"@ + label + "</TD></TR>"@;
    ports_out(w, "o"@, outgoing) + "</TABLE>"@ + ">];\n"@
}

impl Summary {
    pub closed spec fn incoming_ports(&self) -> usize {
        self.incoming
    }

    pub closed spec fn outgoing_ports(&self) -> usize {
        self.outgoing
    }

    pub closed spec fn node(&self) -> NodeId {
        self.id
    }

    /// The summary of a node with `incoming` input ports and no output
    /// ports.
    pub closed spec fn fresh(id: NodeId, incoming: usize) -> Summary {
        Summary { incoming, outgoing: 0, id }
    }

    /// The summary with at least `outgoing` output ports.
    pub closed spec fn raised(self, outgoing: usize) -> Summary {
        Summary {
            outgoing: if self.outgoing >= outgoing {
                self.outgoing
            } else {
                outgoing
            },
            ..self
        }
    }

    /// The summary of node `id`: as many input ports as its incoming
    /// edges have ports, and no output ports yet. A node that the graph
    /// does not hold has no input ports.
    pub fn new(id: NodeId, graph: &Graph) -> (summary: Summary)
        ensures
            summary.node() == id,
            summary.outgoing_ports() == 0,
            summary.incoming_ports() == if graph@.incoming.contains_key(id@) {
                ports_capped(graph@.incoming[id@], graph@.incoming[id@].len() as int)
            } else {
                0
            },
            summary == Summary::fresh(id, summary.incoming_ports()),
    {
        let list = graph.incoming_edges(id);
        let mut incoming: usize = 0;
        let mut i: usize = 0;
        while i < list.len()
            invariant
                i <= list.len(),
                incoming == ports_capped(list@, i as int),
            decreases list.len() - i,
        {
            let width = edge_width(list[i]);
            incoming = if width <= usize::MAX - incoming {
                incoming + width
            } else {
                usize::MAX
            };
            i += 1;
        }
        Summary { incoming, outgoing: 0, id }
    }

    /// Raises the number of output ports to `outgoing`, if it is lower.
    pub fn set_outgoing(&mut self, outgoing: usize)
        ensures
            final(self).node() == old(self).node(),
            final(self).incoming_ports() == old(self).incoming_ports(),
            final(self).outgoing_ports() == if old(self).outgoing_ports() >= outgoing {
                old(self).outgoing_ports()
            } else {
                outgoing
            },
            *final(self) == old(self).raised(outgoing),
    {
        if self.outgoing < outgoing {
            self.outgoing = outgoing;
        }
    }

    /// Appends the table that renders the node, under the text `label`.
    pub fn write(&self, w: &mut String, label: &str)
        ensures
            final(w)@ == summary_out(
                old(w)@,
                self.node()@,
                self.incoming_ports() as int,
                self.outgoing_ports() as int,
                label@,
            ),
    {
        write_id(self.id, w);
        w.append(" [group = Simple, label = <");
        w.append("<TABLE BGCOLOR=\"#DDDDFF\" BORDER=\"1\" CELLSPACING=\"0\">");
        Ports("i", self.incoming).write(w);
        w.append("<TR><TD>");
        w.append(label);
        w.append("</TD></TR>");
        Ports("o", self.outgoing).write(w);
        w.append("</TABLE>");
        w.append(">];\n");
    }
}

/// `w` followed by the head of a cluster.
pub open spec fn cluster_open_out(w: Seq<char>, name: Seq<char>, typ: NodeType, label: Seq<char>) -> Seq<char> {
    let w = w + "subgraph cluster_"@ + name + " {\n"@;
    let w = w + "fillcolor = "@ + color_text(typ) + ";\n"@;
    w + "label = "@ + label + ";\n"@
}

/// A group of nodes that is drawn in a frame.
pub struct Cluster {
    name: String,
    typ: NodeType,
}

impl Cluster {
    pub closed spec fn name_text(&self) -> Seq<char> {
        self.name@
    }

    pub closed spec fn kind(&self) -> NodeType {
        self.typ
    }

    pub fn new(name: String, typ: NodeType) -> (cluster: Cluster)
        ensures
            cluster.name_text() == name@,
            cluster.kind() == typ,
    {
        Cluster { name, typ }
    }

    /// The cluster named after a node.
    pub fn of_node(id: NodeId, typ: NodeType) -> (cluster: Cluster)
        ensures
            cluster.name_text() == id_out(Seq::empty(), id@),
            cluster.kind() == typ,
    {
        let mut name = String::new();
        write_id(id, &mut name);
        Cluster { name, typ }
    }

    /// Appends the head of the cluster, with `label` as its label.
    pub fn open(&self, w: &mut String, label: &str)
        ensures
            final(w)@ == cluster_open_out(old(w)@, self.name_text(), self.kind(), label@),
    {
        w.append("subgraph cluster_");
        w.append(self.name.as_str());
        w.append(" {\n");
        w.append("fillcolor = ");
        w.append(Color(self.typ).text());
        w.append(";\n");
        w.append("label = ");
        w.append(label);
        w.append(";\n");
    }

    /// Appends the head of the cluster, with the name of its kind as its
    /// label.
    pub fn open_labeled(&self, w: &mut String)
        ensures
            final(w)@ == cluster_open_out(old(w)@, self.name_text(), self.kind(), label_text(self.kind())),
    {
        self.open(w, Label(self.typ).text());
    }

    /// Appends the end of the cluster.
    pub fn close(&self, w: &mut String)
        ensures
            final(w)@ == old(w)@ + "}\n"@,
    {
        w.append("}\n");
    }

    /// Appends the cluster with `label` as its label and `nested` as its
    /// content.
    pub fn write(&self, w: &mut String, label: &str, nested: &str)
        ensures
            final(w)@ == cluster_open_out(old(w)@, self.name_text(), self.kind(), label@) + nested@ + "}\n"@,
    {
        self.open(w, label);
        w.append(nested);
        self.close(w);
    }

    /// Appends the cluster with the name of its kind as its label and
    /// `nested` as its content.
    pub fn write_labeled(&self, w: &mut String, nested: &str)
        ensures
            final(w)@ == cluster_open_out(old(w)@, self.name_text(), self.kind(), label_text(self.kind()))
                + nested@ + "}\n"@,
    {
        self.write(w, Label(self.typ).text(), nested);
    }
}

} // verus!
