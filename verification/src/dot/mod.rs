//! A rendering of the region graph as Graphviz source, for inspection.

pub mod template;
pub mod view;
pub mod writer;
