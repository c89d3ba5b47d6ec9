//! Port-range edges between nodes.

use vstd::prelude::*;

use super::node::NodeId;

verus! {

/// A reference to an inclusive range of ports of one node.
#[derive(Clone, Copy, Debug)]
pub struct Edge {
    node: NodeId,
    start: usize,
    end: usize,
}

impl Edge {
    pub closed spec fn node_id(self) -> NodeId {
        self.node
    }

    /// The first port of the range.
    pub closed spec fn first(self) -> usize {
        self.start
    }

    /// The last port of the range, which belongs to it.
    pub closed spec fn last(self) -> usize {
        self.end
    }

    /// The number of ports in the range.
    pub open spec fn width(self) -> int {
        if self.first() <= self.last() {
            self.last() - self.first() + 1
        } else {
            0
        }
    }

    #[must_use]
    pub fn at_range(node: NodeId, start: usize, end: usize) -> (edge: Edge)
        ensures
            edge.node_id() == node,
            edge.first() == start,
            edge.last() == end,
    {
        Edge { node, start, end }
    }

    #[must_use]
    pub fn at_port(node: NodeId, port: usize) -> (edge: Edge)
        ensures
            edge.node_id() == node,
            edge.first() == port,
            edge.last() == port,
    {
        Edge::at_range(node, port, port)
    }

    #[must_use]
    pub fn at(node: NodeId) -> (edge: Edge)
        ensures
            edge.node_id() == node,
            edge.first() == 0,
            edge.last() == 0,
    {
        Edge::at_port(node, 0)
    }

    #[must_use]
    pub fn node(self) -> (id: NodeId)
        ensures
            id == self.node_id(),
    {
        self.node
    }

    /// The ports of the edge as a half-open range.
    #[must_use]
    pub fn ports(self) -> (range: core::ops::Range<usize>)
        requires
            self.last() < usize::MAX,
        ensures
            range.start == self.first(),
            range.end == self.last() + 1,
    {
        self.start..self.end + 1
    }

    /// The first port of the edge.
    pub fn first_port(self) -> (port: usize)
        ensures
            port == self.first(),
    {
        self.start
    }

    /// The last port of the edge.
    pub fn last_port(self) -> (port: usize)
        ensures
            port == self.last(),
    {
        self.end
    }

    /// The number of ports of the edge.
    pub fn port_count(self) -> (count: usize)
        requires
            self.last() < usize::MAX,
        ensures
            count == self.width(),
    {
        if self.start <= self.end {
            self.end - self.start + 1
        } else {
            0
        }
    }
}

impl Default for Edge {
    /// Port 0 of the null handle.
    fn default() -> (edge: Edge)
        ensures
            edge.node_id()@ == super::node::NULL_HANDLE,
            edge.first() == 0,
            edge.last() == 0,
    {
        Edge { node: NodeId::default(), start: 0, end: 0 }
    }
}

} // verus!
