//! The region graph: nodes, port-range edges and the graph that owns them.

pub mod edge;
pub mod graph;
pub mod node;
