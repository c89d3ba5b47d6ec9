//! Transformations of the region graph.

pub mod mark_and_sweep;
